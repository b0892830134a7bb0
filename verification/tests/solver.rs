use consensus_solver::{solve_using_consensus_method, ConesnsusTable, Die};

fn scenario_d_dice() -> Vec<Die<5>> {
    vec![
        Die::new("01100"),
        Die::new("01101"),
        Die::new("01110"),
        Die::new("01111"),
        Die::new("11101"),
        Die::new("11110"),
    ]
}

#[test]
fn solving_twice_changes_nothing() {
    let mut once: ConesnsusTable<5> =
        ConesnsusTable::new(scenario_d_dice(), vec![Die::new("10001"), Die::new("10010")]);
    once.solve();

    let mut twice: ConesnsusTable<5> =
        ConesnsusTable::new(scenario_d_dice(), vec![Die::new("10001"), Die::new("10010")]);
    twice.solve();
    twice.solve();

    assert!(once == twice);
}

#[test]
fn optional_entries_are_never_prime() {
    let mut table: ConesnsusTable<5> =
        ConesnsusTable::new(scenario_d_dice(), vec![Die::new("10001"), Die::new("10010")]);
    table.solve();
    for entry in table.entries() {
        if entry.dont_care {
            assert!(entry.covered.is_some());
        }
    }
}

#[test]
fn unused_optional_keeps_own_marker() {
    // required and optional terms differing in two coordinates cannot merge:
    // the optional term leaves the pass exactly as it went in
    let mut table: ConesnsusTable<5> =
        ConesnsusTable::new(vec![Die::new("01100")], vec![Die::new("00000")]);
    table.solve();
    let entries = table.entries();
    assert_eq!(entries[0].covered, Some(0));
    assert!(entries[0].dont_care);
    assert_eq!(entries[1].covered, None);
}

#[test]
fn consensus_method_matches_table_solving() {
    let solved = solve_using_consensus_method(
        scenario_d_dice(),
        vec![Die::new("10001"), Die::new("10010")],
    );
    let mut table: ConesnsusTable<5> =
        ConesnsusTable::new(scenario_d_dice(), vec![Die::new("10001"), Die::new("10010")]);
    table.solve();
    assert!(solved == table);
}

#[test]
fn consensus_method_scenario_d_primes() {
    let solved = solve_using_consensus_method(
        scenario_d_dice(),
        vec![Die::new("10001"), Die::new("10010")],
    );
    let mut primes: Vec<String> = Vec::new();
    for entry in solved.entries() {
        if entry.covered.is_none() {
            primes.push(entry.die.as_binary_string());
        }
    }
    assert_eq!(
        primes,
        vec!["-1101".to_string(), "-1110".to_string(), "011--".to_string()]
    );
}

#[test]
fn consensus_method_without_required_terms_does_not_solve() {
    // with no required die the don't-care entries are returned untouched:
    // in particular the two mergeable don't-cares stay unmerged
    let table: ConesnsusTable<5> = solve_using_consensus_method(
        Vec::new(),
        vec![Die::new("00000"), Die::new("10000")],
    );
    let entries = table.entries();
    assert_eq!(entries.len(), 2);
    assert_eq!(entries[0].die.as_binary_string(), "00000");
    assert_eq!(entries[0].covered, Some(0));
    assert_eq!(entries[1].die.as_binary_string(), "10000");
    assert_eq!(entries[1].covered, Some(1));
}

#[test]
fn used_optional_marker_moves_to_consuming_entry() {
    // scenario: the optional terms merge to -0000, which then merges with
    // the required -1000 into --000; that entry covers both, so the
    // self-marker of -0000 moves to the id of --000
    let mut table: ConesnsusTable<5> =
        ConesnsusTable::new(vec![Die::new("-1000")], vec![Die::new("00000"), Die::new("10000")]);
    table.solve();
    let entries = table.entries();
    assert_eq!(entries.len(), 5);
    assert_eq!(entries[3].die.as_binary_string(), "-0000");
    assert_eq!(entries[3].covered, Some(4));
    assert_eq!(entries[4].die.as_binary_string(), "--000");
    assert_eq!(entries[4].covered, None);
    assert!(!entries[4].dont_care);
}

#[test]
fn empty_table_solves_to_itself() {
    let mut table: ConesnsusTable<5> = ConesnsusTable::new(Vec::new(), Vec::new());
    table.solve();
    assert_eq!(table.entries().len(), 0);
}

#[test]
fn single_entry_table_is_already_solved() {
    let mut table: ConesnsusTable<5> = ConesnsusTable::new(vec![Die::new("01100")], Vec::new());
    table.solve();
    let entries = table.entries();
    assert_eq!(entries.len(), 1);
    assert_eq!(entries[0].covered, None);
}

#[test]
fn duplicate_inputs_both_stay() {
    // the engine does not deduplicate: two identical required dice differ in
    // no coordinate, so they cannot merge, and both stay in the table
    let mut table: ConesnsusTable<5> =
        ConesnsusTable::new(vec![Die::new("01100"), Die::new("01100")], Vec::new());
    table.solve();
    let entries = table.entries();
    assert_eq!(entries.len(), 2);
    assert_eq!(entries[0].covered, None);
    assert_eq!(entries[1].covered, None);
}
