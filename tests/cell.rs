use simulator_core::cell::{ActivationOrder, Cell, CellFlags, CellIO, Fills, Selector};


fn new_with_output(
    jc1_r1: bool,
    jc1_r2: bool,
    jc2_r1: bool,
    jc2_r2: bool,
    not_c1: bool,
    not_c2: bool,
) -> CellFlags {
    let mut flags = CellFlags::default();
    flags
        .set_range(6, 4)
        .expect("Unexpected error: invalid range");
    flags.set(CellFlags::JC1_R1, jc1_r1);
    flags.set(CellFlags::JC1_R2, jc1_r2);
    flags.set(CellFlags::JC2_R1, jc2_r1);
    flags.set(CellFlags::JC2_R2, jc2_r2);
    flags.set(CellFlags::NOT_C1, not_c1);
    flags.set(CellFlags::NOT_C2, not_c2);
    flags
}

#[test]
fn cell_io_contains_as_bits() {
        let cell = CellIO::new(false, true, false, false);
        assert_eq!(cell.contains_as_u8(CellIO::COLUMN_1), 0);
        assert_eq!(cell.contains_as_u8(CellIO::COLUMN_2), 1);
        assert_eq!(cell.contains_as_u8(CellIO::ROW_1), 0);
        assert_eq!(cell.contains_as_u8(CellIO::ROW_2), 0);

        let cell = CellIO::new(true, true, false, true);
        assert_eq!(cell.contains_as_u8(CellIO::COLUMN_1), 1);
        assert_eq!(cell.contains_as_u8(CellIO::COLUMN_2), 1);
        assert_eq!(cell.contains_as_u8(CellIO::ROW_1), 0);
        assert_eq!(cell.contains_as_u8(CellIO::ROW_2), 1);
    }

#[test]
fn activation_order_uniqueness() {
        assert_eq!(
            ActivationOrder::new([
                Selector::Column1,
                Selector::Column2,
                Selector::Row1,
                Selector::Row2
            ]).map(|o| o.order()),
            Ok([
                Selector::Column1,
                Selector::Column2,
                Selector::Row1,
                Selector::Row2
            ])
        );

        assert_ne!(
            ActivationOrder::new([
                Selector::Column1,
                Selector::Column2,
                Selector::Row1,
                Selector::Row2
            ]).map(|o| o.order()),
            Ok([
                Selector::Column1,
                Selector::Row1,
                Selector::Column2,
                Selector::Row2
            ])
        );

        assert_eq!(
            ActivationOrder::new([
                Selector::Column1,
                Selector::Column2,
                Selector::Row1,
                Selector::Row1
            ]).map(|o| o.order()),
            Err("Duplicate enum variants not allowed")
        );
    }

#[test]
fn column_evaluation_1() {
        let order = ActivationOrder::new([
            Selector::Column1,
            Selector::Column2,
            Selector::Row1,
            Selector::Row2,
        ])
            .unwrap();

        let flags = new_with_output(false, false, false, false, false, false);

        let fills = Fills::new(0, 0, 0, 0);

        let cell = Cell::new(&order, &flags, fills);

        let input = CellIO::new(false, false, false, false);

        assert_eq!(
            cell.eval_cell(input),
            CellIO::new(false, false, false, false)
        );
    }

#[test]
fn column_evaluation_2() {
        let order = ActivationOrder::new([
            Selector::Column1,
            Selector::Column2,
            Selector::Row1,
            Selector::Row2,
        ])
            .unwrap();

        let flags = new_with_output(false, false, false, false, false, false);

        let fills = Fills::new(2, 2, 0, 0);

        let cell = Cell::new(&order, &flags, fills);

        let input = CellIO::new(false, false, false, false);

        assert_eq!(
            cell.eval_cell(input),
            CellIO::new(false, false, false, false)
        );

        let input = CellIO::new(true, false, false, false);

        assert_eq!(
            cell.eval_cell(input),
            CellIO::new(true, false, false, false)
        );

        for (input, output) in cell.truth_table() {
            println!("{:04b} -> {:04b}", input.bits(), output.bits());
        }
    }

#[test]
fn column_evaluation_3() {
        let order = ActivationOrder::new([
            Selector::Row1,
            Selector::Column1,
            Selector::Column2,
            Selector::Row2,
        ])
            .unwrap();

        let flags = new_with_output(true, true, false, false, false, false);

        let fills = Fills::new(2, 0, 0, 0);

        let cell = Cell::new(&order, &flags, fills);

        let input = CellIO::new(false, false, false, false);

        assert_eq!(
            cell.eval_cell(input),
            CellIO::new(true, true, false, false)
        );

        let input = CellIO::new(true, false, false, false);

        assert_eq!(
            cell.eval_cell(input),
            CellIO::new(true, true, false, false)
        );

        let fills = Fills::new(2, 0, 5, 0);

        let cell = Cell::new(&order, &flags, fills);

        let input = CellIO::new(false, false, false, false);

        assert_eq!(cell.eval_cell(input), CellIO::new(true, false, true, false));
    }

#[test]
fn column_evaluation_4() {
        let order = ActivationOrder::new([
            Selector::Column1,
            Selector::Column2,
            Selector::Row1,
            Selector::Row2,
        ])
            .unwrap();

        let flags = new_with_output(true, false, false, false, false, false);

        let fills = Fills::new(1, 0, 2, 0);

        let cell = Cell::new(&order, &flags, fills);

        let input = CellIO::new(false, false, false, false);

        cell.eval_cell(input);

        assert_eq!(
            cell.eval_cell(input),
            CellIO::new(false, false, false, false)
        );

        let input = CellIO::new(true, false, false, false);

        assert_eq!(cell.eval_cell(input), CellIO::new(true, false, true, false));
    }

#[test]
fn column_evaluation_5() {
        let order = ActivationOrder::new([
            Selector::Column1,
            Selector::Column2,
            Selector::Row1,
            Selector::Row2,
        ])
            .unwrap();

        let flags = new_with_output(true, true, false, false, false, false);

        let fills = Fills::new(0, 0, 2, 2);

        let cell = Cell::new(&order, &flags, fills);

        let input = CellIO::new(false, false, false, false);

        cell.eval_cell(input);

        assert_eq!(
            cell.eval_cell(input),
            CellIO::new(false, false, false, false)
        );

        let input = CellIO::new(true, false, false, false);

        assert_eq!(cell.eval_cell(input), CellIO::new(true, false, true, true));
    }

#[test]
fn column_evaluation_6() {
        let order = ActivationOrder::new([
            Selector::Row1,
            Selector::Column1,
            Selector::Row2,
            Selector::Column2,
        ])
            .unwrap();

        let flags = new_with_output(true, true, false, false, false, false);

        let fills = Fills::new(0, 0, 1, 2);

        let cell = Cell::new(&order, &flags, fills);

        let input = CellIO::new(false, false, false, false);

        assert_eq!(
            cell.eval_cell(input),
            CellIO::new(true, true, false, true)
        );

        let input = CellIO::new(true, false, false, false);

        assert_eq!(
            cell.eval_cell(input),
            CellIO::new(true, true, false, true)
        );

        let input = CellIO::new(false, false, true, false);

        assert_eq!(
            cell.eval_cell(input),
            CellIO::new(false, false, true, false)
        );

        let input = CellIO::new(true, false, true, false);

        assert_eq!(cell.eval_cell(input), CellIO::new(true, false, true, true));
    }

#[test]
fn column_evaluation_7() {
        let order = ActivationOrder::new([
            Selector::Row1,
            Selector::Column1,
            Selector::Row2,
            Selector::Column2,
        ])
            .unwrap();

        let flags = new_with_output(true, true, false, false, false, false);

        let fills = Fills::new(1, 0, 1, 2);

        let cell = Cell::new(&order, &flags, fills);

        let input = CellIO::new(false, false, false, false);

        assert_eq!(
            cell.eval_cell(input),
            CellIO::new(true, true, false, true)
        );

        let input = CellIO::new(true, false, false, false);

        assert_eq!(cell.eval_cell(input), CellIO::new(true, true, false, true));

        let input = CellIO::new(false, false, true, false);

        assert_eq!(cell.eval_cell(input), CellIO::new(true, false, true, true));

        let input = CellIO::new(true, false, true, false);

        assert_eq!(cell.eval_cell(input), CellIO::new(true, false, true, true));
    }

#[test]
fn not_column_evaluation_1() {
        let order = ActivationOrder::new([
            Selector::Row1,
            Selector::Column1,
            Selector::Row2,
            Selector::Column2,
        ])
            .unwrap();

        let flags = new_with_output(false, false, false, false, true, false);

        let fills = Fills::new(0, 0, 1, 0);

        let cell = Cell::new(&order, &flags, fills);

        let input = CellIO::new(false, false, false, false);

        assert_eq!(
            cell.eval_cell(input),
            CellIO::new(true, true, false, false)
        );

        let input = CellIO::new(false, false, true, false);

        assert_eq!(
            cell.eval_cell(input),
            CellIO::new(false, false, true, false)
        );
    }

#[test]
fn not_column_evaluation_2() {
        let order = ActivationOrder::new([
            Selector::Row1,
            Selector::Row2,
            Selector::Column1,
            Selector::Column2,
        ])
            .unwrap();

        let flags = new_with_output(false, true, false, false, true, false);

        let fills = Fills::new(1, 0, 1, 1);

        let cell = Cell::new(&order, &flags, fills);

        let mut input = CellIO::new(false, false, false, false);

        assert_eq!(
            cell.eval_cell(input),
            CellIO::new(true, true, false, false)
        );

        input = CellIO::new(false, false, true, false);

        assert_eq!(
            cell.eval_cell(input),
            CellIO::new(false, false, true, false)
        );

        input = CellIO::new(true, false, true, false);

        assert_eq!(
            cell.eval_cell(input),
            CellIO::new(false, false, true, false)
        );

        input = CellIO::new(true, false, true, false);

        assert_eq!(
            cell.eval_cell(input),
            CellIO::new(false, false, true, false)
        );

        input = CellIO::new(false, false, true, true);

        assert_eq!(cell.eval_cell(input), CellIO::new(false, false, true, true));

        input = CellIO::new(true, false, true, true);

        assert_eq!(cell.eval_cell(input), CellIO::new(true, false, true, true));
    }
