use consensus_solver::{Die, SecondQuineTable, SecondQuineTableEntry};

#[test]
fn testt() {
    let table: SecondQuineTable<5> = SecondQuineTable::from(vec![
        SecondQuineTableEntry::from_die(Die::new("10111")),
        SecondQuineTableEntry::from_die(Die::new("0--11")),
        SecondQuineTableEntry::from_die(Die::new("00001")),
        SecondQuineTableEntry::from_die(Die::new("0-111")),
    ]);

    let mut terms: Vec<usize> = Vec::new();
    for entry in table.entries() {
        for &term in &entry.covers {
            if !terms.contains(&term) {
                terms.push(term);
            }
        }
    }
    terms.sort();
    let pad = format!("{}", terms.last().unwrap()).len();

    for entry in table.entries() {
        println!("{}", table.entry_to_string(entry, pad, &terms));
    }
}

#[test]
fn quine_entry_term_values() {
    let entry: SecondQuineTableEntry<5> = SecondQuineTableEntry::from_die(Die::new("10111"));
    assert_eq!(entry.covers, vec![23]);

    let entry: SecondQuineTableEntry<5> = SecondQuineTableEntry::from_die(Die::new("0-111"));
    assert_eq!(entry.covers, vec![7, 15]);

    let entry: SecondQuineTableEntry<5> = SecondQuineTableEntry::from_die(Die::new("0--11"));
    assert_eq!(entry.covers, vec![3, 7, 11, 15]);

    let entry: SecondQuineTableEntry<5> = SecondQuineTableEntry::from_die(Die::new("00001"));
    assert_eq!(entry.covers, vec![1]);
}

#[test]
fn quine_entry_covers_lookup() {
    let entry: SecondQuineTableEntry<5> = SecondQuineTableEntry::from_die(Die::new("0--11"));
    assert!(entry.covers(3));
    assert!(entry.covers(15));
    assert!(!entry.covers(23));
    assert!(!entry.covers(0));
}

#[test]
fn quine_row_rendering() {
    let table: SecondQuineTable<5> =
        SecondQuineTable::from(vec![SecondQuineTableEntry::from_die(Die::new("0-111"))]);
    let terms: Vec<usize> = vec![7, 15, 23];
    let row = table.entry_to_string(&table.entries()[0], 2, &terms);
    assert_eq!(row, " (0 - 1 1 1) ┃ X  ┃ X  ┃    ");
}
