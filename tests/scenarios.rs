use simulator_core::cell::{ActivationOrder, Cell, CellFlags, CellIO, Fills, Selector};

const ALL_ORDERS_INPUT: [Selector; 4] = [
    Selector::Column1,
    Selector::Column2,
    Selector::Row1,
    Selector::Row2,
];

#[test]
fn every_permutation_is_accepted() {
    let mut accepted = 0;
    for a in ALL_ORDERS_INPUT {
        for b in ALL_ORDERS_INPUT {
            for c in ALL_ORDERS_INPUT {
                for d in ALL_ORDERS_INPUT {
                    let order = [a, b, c, d];
                    let distinct = a != b && a != c && a != d && b != c && b != d && c != d;
                    let result = ActivationOrder::new(order);
                    assert_eq!(result.is_ok(), distinct);
                    if distinct {
                        accepted += 1;
                        assert_eq!(result.unwrap().order(), order);
                    } else {
                        assert_eq!(result.map(|o| o.order()), Err("Duplicate enum variants not allowed"));
                    }
                }
            }
        }
    }
    assert_eq!(accepted, 24);
}

#[test]
fn still_flags_set_on_every_construction() {
    let from_zero = CellFlags::from_bits_checked(0);
    let from_all = CellFlags::from_bits_checked(u16::MAX);
    let defaulted = CellFlags::default();
    let mut changed = CellFlags::default();
    changed.set(CellFlags::NOT_C1, true);
    changed.set_range(0, 10).unwrap();
    for flags in [from_zero, from_all, defaulted, changed] {
        let state = flags.state();
        assert!(state.still_c1 && state.still_c2 && state.still_r1);
    }
    let cell = Cell::new(&ActivationOrder::default(), &from_zero, Fills::default());
    let state = cell.flags.state();
    assert!(state.still_c1 && state.still_c2 && state.still_r1);
}

#[test]
fn flags_from_bits_drop_unknown_bits() {
    let flags = CellFlags::from_bits_checked(u16::MAX);
    assert_eq!(flags.bits(), 0b1_1111_1111_1111);
    let flags = CellFlags::from_bits_checked(0b1110_0000_0101_0001);
    assert_eq!(flags.bits(), 0b1_1100_0101_0001);
    assert!(flags.contains(CellFlags::JC1_R1));
    assert!(flags.contains(CellFlags::NOT_C1));
    assert!(flags.contains(CellFlags::C1_OUT));
    assert!(!flags.contains(CellFlags::C2_OUT));
    assert_eq!(CellFlags::default().bits(), 0b1_1100_0000_0000);
}

#[test]
fn set_range_errors() {
    let mut flags = CellFlags::default();
    assert_eq!(flags.set_range(13, 1), Err("Position out of range"));
    assert_eq!(flags.set_range(4, 0), Err("Invalid range"));
    assert_eq!(flags.set_range(10, 4), Err("Invalid range"));
    assert_eq!(flags.set_range(12, 255), Err("Invalid range"));
    assert_eq!(flags.bits(), 0b1_1100_0000_0000);
    assert_eq!(flags.set_range(6, 4), Ok(()));
    assert_eq!(flags.bits(), 0b1_1111_1100_0000);
}

fn plain_cell(fills: Fills) -> Cell {
    Cell::new(&ActivationOrder::default(), &CellFlags::default(), fills)
}

#[test]
fn threshold_boundary() {
    let zero = CellIO::new(false, false, false, false);
    assert_eq!(plain_cell(Fills::new(3, 3, 3, 3)).eval_cell(zero), zero);
    assert_eq!(
        plain_cell(Fills::new(4, 4, 4, 4)).eval_cell(zero),
        CellIO::new(true, true, true, true)
    );
    assert_eq!(
        plain_cell(Fills::new(4, 3, 3, 4)).eval_cell(zero),
        CellIO::new(true, false, false, true)
    );
    // An input of 1 adds one block.
    assert_eq!(
        plain_cell(Fills::new(3, 2, 3, 2)).eval_cell(CellIO::new(true, true, true, true)),
        CellIO::new(true, false, true, false)
    );
}

#[test]
fn eval_is_repeatable_and_leaves_cell_alone() {
    let order = ActivationOrder::new([
        Selector::Row1,
        Selector::Column1,
        Selector::Row2,
        Selector::Column2,
    ])
    .unwrap();
    let mut flags = CellFlags::default();
    flags.set(CellFlags::NOT_C1, true);
    flags.set(CellFlags::JC1_R2, true);
    let cell = Cell::new(&order, &flags, Fills::new(1, 0, 1, 1));
    for bits in 0..16u8 {
        let input = CellIO::from_bits_truncate(bits);
        let first = cell.eval_cell(input);
        for _ in 0..3 {
            assert_eq!(cell.eval_cell(input), first);
        }
    }
    assert_eq!(cell.flags.bits(), flags.bits());
}

#[test]
fn order_changes_row_1() {
    let mut flags = CellFlags::default();
    flags.set(CellFlags::NOT_C1, true);
    let fills = Fills::new(0, 0, 2, 0);
    let zero = CellIO::new(false, false, false, false);

    let column_first = ActivationOrder::default();
    let row_first = ActivationOrder::new([
        Selector::Row1,
        Selector::Column1,
        Selector::Column2,
        Selector::Row2,
    ])
    .unwrap();
    let a = Cell::new(&column_first, &flags, fills).eval_cell(zero);
    let b = Cell::new(&row_first, &flags, fills).eval_cell(zero);
    assert_eq!(a, CellIO::new(false, false, true, false));
    assert_eq!(b, CellIO::new(false, false, false, false));
    assert_ne!(a.row_1, b.row_1);
}

#[test]
fn all_off_cell_outputs_nothing() {
    let order = ActivationOrder::new([
        Selector::Column1,
        Selector::Column2,
        Selector::Row1,
        Selector::Row2,
    ])
    .unwrap();
    let cell = Cell::new(&order, &CellFlags::default(), Fills::new(0, 0, 0, 0));
    let zero = CellIO::new(false, false, false, false);
    assert_eq!(cell.eval_cell(zero), zero);
}

#[test]
fn inverted_column_1_with_row_fill() {
    let order = ActivationOrder::new([
        Selector::Row1,
        Selector::Column1,
        Selector::Column2,
        Selector::Row2,
    ])
    .unwrap();
    let zero = CellIO::new(false, false, false, false);

    // NOT on column 1, 5 fillers on row 1: row 1 holds 9 + 5 + 1 blocks and
    // resolves active first, so column 1 never sees row 1 at rest and stays
    // inactive.
    let mut flags = CellFlags::default();
    flags.set(CellFlags::NOT_C1, true);
    let cell = Cell::new(&order, &flags, Fills::new(0, 0, 5, 0));
    assert_eq!(cell.eval_cell(zero), CellIO::new(false, false, true, false));

    // Column 1 active through its own blocks, row 1 through its fillers.
    let mut flags = CellFlags::default();
    flags.set_range(6, 4).unwrap();
    flags.set(CellFlags::JC1_R1, true);
    flags.set(CellFlags::JC1_R2, true);
    let cell = Cell::new(&order, &flags, Fills::new(2, 0, 5, 0));
    assert_eq!(cell.eval_cell(zero), CellIO::new(true, false, true, false));
}

#[test]
fn cell_io_bits_round_trip() {
    for bits in 0..=255u8 {
        let io = CellIO::from_bits_truncate(bits);
        assert_eq!(io.bits(), bits % 16);
    }
    assert_eq!(CellIO::new(true, false, true, false).bits(), 0b0101);
}

#[test]
fn fills_get_and_set() {
    let mut fills = Fills::new(1, 2, 3, 4);
    assert_eq!(fills.get(Selector::Row1), 3);
    fills.set(Selector::Row1, 9);
    assert_eq!(fills.get(Selector::Row1), 9);
    assert_eq!(fills.counts, [1, 2, 9, 4]);
}

#[test]
fn truth_table_lists_every_input() {
    let order = ActivationOrder::new([
        Selector::Row1,
        Selector::Column1,
        Selector::Row2,
        Selector::Column2,
    ])
    .unwrap();
    let mut flags = CellFlags::default();
    flags.set_range(6, 4).unwrap();
    flags.set(CellFlags::JC1_R1, true);
    flags.set(CellFlags::JC1_R2, true);
    let cell = Cell::new(&order, &flags, Fills::new(1, 0, 1, 2));
    let table = cell.truth_table();
    assert_eq!(table.len(), 16);
    for (i, (input, output)) in table.iter().enumerate() {
        assert_eq!(input.bits() as usize, 15 - i);
        assert_eq!(*output, cell.eval_cell(*input));
    }
    // Column 1 and row 1 active at the input: row 1 resolves active, so the
    // column 2 latch never fires.
    assert_eq!(table[15 - 0b0101].1, CellIO::new(true, false, true, true));
    // All inputs clear: row 1 resolves inactive first and both column
    // latches fire.
    assert_eq!(table[15].1, CellIO::new(true, true, false, true));
}

#[test]
fn column_latch_fires_after_row_1_rests() {
    let order = ActivationOrder::new([
        Selector::Row1,
        Selector::Column1,
        Selector::Column2,
        Selector::Row2,
    ])
    .unwrap();
    let mut flags = CellFlags::default();
    flags.set(CellFlags::C1_OUT, true);
    let zero = CellIO::new(false, false, false, false);
    // Row 1 holds 9 blocks and rests first; column 1 then latches active.
    let cell = Cell::new(&order, &flags, Fills::new(0, 0, 0, 0));
    assert_eq!(cell.eval_cell(zero), CellIO::new(true, false, false, false));
    // With column 1 resolving before row 1, the latch cannot fire.
    let cell = Cell::new(&ActivationOrder::default(), &flags, Fills::new(0, 0, 0, 0));
    assert_eq!(cell.eval_cell(zero), zero);
}
