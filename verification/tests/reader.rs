use h5rio::{
    iter_array, iter_table, read_array, single_row, ArrayHdf5Writer, DenseArray, H5rioError,
    SliceSpec, TableHdf5Writer,
};

#[derive(Clone, PartialEq, Debug, Default)]
pub struct DummyData {
    i: u32,
    x: f32,
}

fn close32(a: f32, b: f32) -> bool {
    (a - b).abs() <= 2.0 * f32::EPSILON * b.abs().max(1.0)
}

fn close64(a: f64, b: f64) -> bool {
    (a - b).abs() <= 2.0 * f64::EPSILON * b.abs().max(1.0)
}

// The rows of the shared test table, written with a chunk of 3, then
// flushed, as the rows of an in-memory table dataset.
fn table_rows() -> Vec<DummyData> {
    let mut w = TableHdf5Writer::new(3).unwrap();
    w.write(DummyData { i: 5, x: 1.62 }).unwrap();
    w.write(DummyData { i: 1, x: 2.72 }).unwrap();
    w.write(DummyData { i: 42, x: 3.14 }).unwrap();
    let plan = w.flush(0).unwrap();
    assert_eq!(plan.resize_to, vec![3]);
    let rows = w.cache().clone();
    w.mark_flushed();
    rows
}

// The shared test array, in an in-memory dataset of shape (2, 2, 3).
fn array_dataset() -> (Vec<usize>, Vec<f64>) {
    let mut w = ArrayHdf5Writer::new(3, vec![2, 3]).unwrap();
    let a = DenseArray::from_shape_vec(vec![2, 3], vec![1., 2., 3., 4., 5., 6.]).unwrap();
    let b = DenseArray::from_shape_vec(vec![2, 3], vec![11., 22., 33., 44., 55., 66.]).unwrap();
    w.write(a).unwrap();
    w.write(b).unwrap();
    let plan = w.flush(0).unwrap();
    let data = w.cache().clone();
    w.mark_flushed();
    (plan.resize_to, data)
}

fn select<T: Clone>(shape: &[usize], data: &[T], selection: &[SliceSpec]) -> (Vec<usize>, Vec<T>) {
    let item: usize = shape[1..].iter().product();
    for s in &selection[1..] {
        assert_eq!(*s, SliceSpec::Unlimited { start: 0, step: 1, block: 1 });
    }
    match selection[0] {
        SliceSpec::Index(i) => (shape[1..].to_vec(), data[i * item..(i + 1) * item].to_vec()),
        _ => panic!("unexpected selection"),
    }
}

#[test]
fn read_table_custom() {
    let read = table_rows();
    assert_eq!(read[0].i, 5);
    assert_eq!(read[1].i, 1);
    assert_eq!(read[2].i, 42);

    assert!(close32(read[0].x, 1.62));
    assert!(close32(read[1].x, 2.72));
    assert!(close32(read[2].x, 3.14));
}

#[test]
fn iter_table_custom() {
    let rows = table_rows();
    let mut iter = iter_table(&vec![rows.len()]).unwrap();
    let mut next = || iter.next().map(|i| single_row(rows[i..i + 1].to_vec()).unwrap());

    let first = next().unwrap();
    let second = next().unwrap();
    let third = next().unwrap();
    assert!(next().is_none());

    assert_eq!(first.i, 5);
    assert_eq!(second.i, 1);
    assert_eq!(third.i, 42);

    assert!(close32(first.x, 1.62));
    assert!(close32(second.x, 2.72));
    assert!(close32(third.x, 3.14));
}

#[test]
fn iter_table_rejects_multidimensional_dataset() {
    let out = iter_table(&vec![2, 2]);

    assert!(matches!(out, Err(H5rioError::NotATable { .. })));
    assert_eq!(out.err(), Some(H5rioError::NotATable { shape: vec![2, 2] }));
}

#[test]
fn iter_table_stays_exhausted() {
    let mut iter = iter_table(&vec![2]).unwrap();
    assert_eq!(iter.next(), Some(0));
    assert_eq!(iter.next(), Some(1));
    assert_eq!(iter.next(), None);
    assert_eq!(iter.next(), None);
    assert_eq!(iter.position_now(), 2);
    assert_eq!(iter.row_count_now(), 2);
}

#[test]
fn single_row_of_empty_slice() {
    assert_eq!(single_row(Vec::<u8>::new()), Err(H5rioError::EmptyRowSlice));
    assert_eq!(single_row(vec![7u8, 8]), Ok(7));
}

#[test]
fn read_array_custom() {
    let (shape, data) = array_dataset();
    let read = DenseArray::from_shape_vec(shape.clone(), data).unwrap();
    let read = read_array(read, shape).unwrap();
    assert_eq!(read.shape(), &[2, 2, 3]);

    let expected = [1.0, 2.0, 3.0, 4.0, 5.0, 6.0, 11.0, 22.0, 33.0, 44.0, 55.0, 66.0];
    for (got, want) in read.elements().iter().zip(expected.iter()) {
        assert!(close64(*got, *want));
    }
}

#[test]
fn read_array_rejects_mismatched_shape() {
    let read = DenseArray::from_shape_vec(vec![5], vec![1u8, 2, 3, 4, 5]).unwrap();
    let out = read_array(read, vec![2, 3]);
    assert_eq!(
        out.err(),
        Some(H5rioError::ReshapeFailed { read_shape: vec![5], dataset_shape: vec![2, 3] })
    );
    let read = DenseArray::from_shape_vec(vec![6], vec![1u8, 2, 3, 4, 5, 6]).unwrap();
    let out = read_array(read, vec![2, 3]).unwrap();
    assert_eq!(out.shape(), &[2, 3]);
    assert_eq!(out.elements(), &vec![1, 2, 3, 4, 5, 6]);
}

#[test]
fn iter_array_custom() {
    let (shape, data) = array_dataset();
    let mut iter = iter_array(&shape).unwrap();

    let (first_shape, first) = select(&shape, &data, &iter.next().unwrap());
    assert_eq!(first_shape, vec![2, 3]);
    let want = [1.0, 2.0, 3.0, 4.0, 5.0, 6.0];
    for (g, w) in first.iter().zip(want.iter()) {
        assert!(close64(*g, *w));
    }

    let (second_shape, second) = select(&shape, &data, &iter.next().unwrap());
    assert_eq!(second_shape, vec![2, 3]);
    let want = [11.0, 22.0, 33.0, 44.0, 55.0, 66.0];
    for (g, w) in second.iter().zip(want.iter()) {
        assert!(close64(*g, *w));
    }

    assert!(iter.next().is_none());
}

#[test]
fn iter_array_selection() {
    let mut iter = iter_array(&vec![4, 2, 3]).unwrap();
    assert_eq!(iter.entry_count_now(), 4);
    iter.next();
    let sel = iter.next().unwrap();
    assert_eq!(
        sel,
        vec![
            SliceSpec::Index(1),
            SliceSpec::Unlimited { start: 0, step: 1, block: 1 },
            SliceSpec::Unlimited { start: 0, step: 1, block: 1 },
        ]
    );
    let mut one_dim = iter_array(&vec![3]).unwrap();
    assert_eq!(one_dim.next(), Some(vec![SliceSpec::Index(0)]));
}

#[test]
fn iter_array_rejects_scalar_dataset() {
    let out = iter_array(&vec![]);

    assert!(matches!(out, Err(H5rioError::ScalarDataset)));
    assert_eq!(out.err(), Some(H5rioError::ScalarDataset));
}
