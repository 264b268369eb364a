use neural_net::{Ops, Tensor};

fn f32_ops() -> Ops<
    f32,
    impl Fn(f32, f32) -> f32,
    impl Fn(f32, f32) -> f32,
    impl Fn(f32, f32) -> f32,
> {
    Ops {
        add_fn: |a: f32, b: f32| a + b,
        sub_fn: |a: f32, b: f32| a - b,
        mul_fn: |a: f32, b: f32| a * b,
        zero: 0.0,
    }
}

#[test]
fn indices_are_actually_row_major() {
    let tensor = Tensor::zero(100, 100, 0.0f32);
    let inputs = vec![
        (0, 0, 0),
        (0, 1, 1),
        (1, 0, tensor.width),
        (50, 30, 50 * tensor.width + 30),
    ];

    for (row, column, expected) in inputs {
        let got = tensor.get_ix(row, column);
        assert_eq!(got, expected);
    }
}

#[test]
fn add_two_tensors() {
    let left = Tensor::fill(50, 100, |row, col| (row * 50 + col) as f32);
    let right = Tensor::fill(50, 100, |row, col| (row * 50 + col) as f32);
    let expected =
        Tensor::fill(50, 100, |row, col| (row * 50 + col) as f32 * 2.0);

    let got = left.zipped(&right, |a: f32, b: f32| a + b);

    assert_eq!(got, expected);
}

#[test]
fn multiply_by_scale_factor() {
    let t = Tensor::fill(50, 100, |row, col| (row * 50 + col) as f32);
    let factor = 123.4;
    let expected =
        Tensor::fill(50, 100, |row, col| (row * 50 + col) as f32 * factor);

    let got = t.scaled(factor, |s: f32, x: f32| s * x);

    assert_eq!(got, expected);
}

#[test]
fn add_then_subtract_gives_back_the_left_operand() {
    let a = Tensor::fill(3, 4, |row, col| (row * 7 + col) as f32);
    let b = Tensor::fill(3, 4, |row, col| (col * 2 + row) as f32);
    let sum = a.zipped(&b, |x: f32, y: f32| x + y);
    let back = sum.zipped(&b, |x: f32, y: f32| x - y);
    let (w, h) = back.dimensions();
    assert_eq!((w, h), (3, 4));
    for row in 0..4 {
        for col in 0..3 {
            let got = back.get(row, col).unwrap();
            let want = a.get(row, col).unwrap();
            assert!((got - want).abs() < 1e-5);
        }
    }
}

#[test]
fn addition_is_commutative() {
    let a = Tensor::fill(3, 4, |row, col| (row * 7 + col) as f32 * 0.25);
    let b = Tensor::fill(3, 4, |row, col| (col * 5 + row) as f32 * 0.5);
    let ab = a.zipped(&b, |x: f32, y: f32| x + y);
    let ba = b.zipped(&a, |x: f32, y: f32| x + y);
    assert_eq!(ab, ba);
}

#[test]
fn scaling_commutes_and_has_identity_and_zero() {
    let a = Tensor::fill(4, 2, |row, col| (row * 4 + col) as f32 - 3.5);
    let s = 2.75f32;
    let s_a = a.scaled(s, |f: f32, x: f32| f * x);
    let a_s = a.mapped(|x: f32| x * s);
    assert_eq!(s_a, a_s);

    let by_one = a.scaled(1.0, |f: f32, x: f32| f * x);
    assert_eq!(by_one, a);

    let by_zero = a.scaled(0.0, |f: f32, x: f32| f * x);
    assert_eq!(by_zero, Tensor::zero(4, 2, 0.0f32));
}

#[test]
fn transpose_is_an_involution() {
    let a = Tensor::fill(5, 3, |row, col| (row * 11 + col * 3) as f32);
    let t = a.transposed();
    assert_eq!(t.dimensions(), (3, 5));
    assert_eq!(t.get(2, 1), a.get(1, 2));
    assert_eq!(t.transposed(), a);
}

#[test]
fn matrix_multiply_matches_hand_computed_example() {
    let a = Tensor::fill(2, 2, |row, col| [[1.0f32, 2.0], [3.0, 4.0]][row][col]);
    let b = Tensor::fill(2, 2, |row, col| [[5.0f32, 6.0], [7.0, 8.0]][row][col]);
    let ops = f32_ops();
    let product = a.matmul(&b, &ops);
    assert_eq!(product.dimensions(), (2, 2));
    assert_eq!(product.get(0, 0), Some(19.0));
    assert_eq!(product.get(0, 1), Some(22.0));
    assert_eq!(product.get(1, 0), Some(43.0));
    assert_eq!(product.get(1, 1), Some(50.0));
}

#[test]
fn matrix_multiply_shape_is_m_by_n() {
    let a = Tensor::fill(4, 2, |row, col| (row + col) as f32);
    let b = Tensor::fill(3, 4, |row, col| (row * col) as f32);
    let ops = f32_ops();
    let product = a.matmul(&b, &ops);
    assert_eq!(product.dimensions(), (3, 2));
}

#[test]
fn get_is_none_exactly_out_of_bounds() {
    let t = Tensor::fill(3, 2, |row, col| (row * 3 + col) as f32);
    assert_eq!(t.get(0, 0), Some(0.0));
    assert_eq!(t.get(1, 2), Some(5.0));
    assert_eq!(t.get(2, 0), None);
    assert_eq!(t.get(0, 3), None);
    assert_eq!(t.get(2, 3), None);
}

#[test]
fn column_builds_a_single_column() {
    let t = Tensor::column(vec![1.0f32, 2.0, 3.0]);
    assert_eq!(t.dimensions(), (1, 3));
    assert_eq!(t.get(0, 0), Some(1.0));
    assert_eq!(t.get(2, 0), Some(3.0));
    assert_eq!(t.get(0, 1), None);
}

#[test]
fn fill_hands_the_generator_row_major_coordinates() {
    let t = Tensor::fill(4, 3, |row, col| (row * 10 + col) as f32);
    for row in 0..3 {
        for col in 0..4 {
            assert_eq!(t.get(row, col), Some((row * 10 + col) as f32));
        }
    }
}

#[test]
fn set_and_at_read_back_written_cells() {
    let mut t = Tensor::zero(3, 3, 0.0f32);
    t.set(1, 2, 42.0);
    assert_eq!(t.at(1, 2), 42.0);
    assert_eq!(t.at(2, 1), 0.0);
}

#[test]
fn rows_exposes_each_row_in_order() {
    let t = Tensor::fill(3, 2, |row, col| (row * 3 + col) as f32);
    let rows = t.rows();
    assert_eq!(rows.len(), 2);
    assert_eq!(rows[0], vec![0.0, 1.0, 2.0]);
    assert_eq!(rows[1], vec![3.0, 4.0, 5.0]);
}

#[test]
fn cells_and_iter_walk_row_major() {
    let t = Tensor::fill(2, 2, |row, col| (row * 2 + col) as f32);
    let cells = t.cells();
    assert_eq!(cells, vec![(0, 0), (0, 1), (1, 0), (1, 1)]);
    let items = t.iter();
    assert_eq!(
        items,
        vec![
            ((0, 0), 0.0),
            ((0, 1), 1.0),
            ((1, 0), 2.0),
            ((1, 1), 3.0),
        ]
    );
}

#[test]
fn mapped_applies_elementwise_and_keeps_shape() {
    let t = Tensor::fill(2, 3, |row, col| (row * 2 + col) as f32);
    let doubled = t.mapped(|x: f32| 2.0 * x);
    assert_eq!(doubled.dimensions(), (2, 3));
    assert_eq!(doubled.get(2, 1), Some(10.0));
}

#[test]
fn duplicate_copies_every_cell() {
    let t = Tensor::fill(3, 2, |row, col| (row * 3 + col) as f32 * 1.5);
    let copy = t.duplicate();
    assert_eq!(copy, t);
}

#[test]
fn column_sums_add_down_each_column() {
    let t = Tensor::fill(2, 3, |row, col| (row * 2 + col) as f32);
    let ops = f32_ops();
    let sums = t.column_sums(&ops);
    assert_eq!(sums.dimensions(), (2, 1));
    assert_eq!(sums.get(0, 0), Some(0.0 + 2.0 + 4.0));
    assert_eq!(sums.get(0, 1), Some(1.0 + 3.0 + 5.0));
}

#[test]
fn row_broadcast_add_adds_the_bias_to_every_row() {
    let t = Tensor::fill(2, 3, |row, col| (row * 2 + col) as f32);
    let bias = Tensor::fill(2, 1, |_row, col| (col as f32 + 1.0) * 10.0);
    let ops = f32_ops();
    let out = t.row_broadcast_add(&bias, &ops);
    assert_eq!(out.dimensions(), (2, 3));
    for row in 0..3 {
        assert_eq!(out.get(row, 0), Some((row * 2) as f32 + 10.0));
        assert_eq!(out.get(row, 1), Some((row * 2 + 1) as f32 + 20.0));
    }
}
