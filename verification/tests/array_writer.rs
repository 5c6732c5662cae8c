use h5rio::{
    read_array, write_chunked_array, ArrayHdf5Writer, DenseArray, DumpPlan, Extent, H5rioError,
    SliceSpec, WriteOutcome,
};

// An in-memory stand-in for an HDF5 dataset with a resizable leading axis:
// it carries out the plans the writer produces the way HDF5 would.
struct MemDataset<T> {
    shape: Vec<usize>,
    data: Vec<T>,
}

impl<T: Clone + Default> MemDataset<T> {
    fn create(extents: &[Extent]) -> Self {
        let shape: Vec<usize> = extents
            .iter()
            .map(|e| match e {
                Extent::Fixed(n) => *n,
                Extent::Resizable(n) => *n,
            })
            .collect();
        let len = shape.iter().product();
        MemDataset { shape, data: vec![T::default(); len] }
    }

    fn item_len(&self) -> usize {
        self.shape[1..].iter().product()
    }

    fn apply(&mut self, plan: &DumpPlan, payload: &[T]) {
        assert_eq!(&plan.resize_to[1..], &self.shape[1..]);
        let item = self.item_len();
        self.data.resize(plan.resize_to[0] * item, T::default());
        self.shape = plan.resize_to.clone();
        match plan.selection[0] {
            SliceSpec::SliceCount { start, count, step, block } => {
                assert_eq!((step, block), (1, 1));
                assert_eq!(plan.view_shape[0], count);
                assert_eq!(payload.len(), count * item);
                self.data[start * item..(start + count) * item].clone_from_slice(payload);
            }
            _ => panic!("unexpected selection"),
        }
        for s in &plan.selection[1..] {
            assert_eq!(*s, SliceSpec::Unlimited { start: 0, step: 1, block: 1 });
        }
    }

    fn read(&self) -> DenseArray<T> {
        let read = DenseArray::from_shape_vec(self.shape.clone(), self.data.clone()).unwrap();
        read_array(read, self.shape.clone()).unwrap()
    }
}

fn create<T: Clone + Default>(chunk_size: usize, shape: Vec<usize>) -> (ArrayHdf5Writer<T>, MemDataset<T>) {
    let writer = ArrayHdf5Writer::<T>::new(chunk_size, shape).unwrap();
    let layout = writer.dataset_layout();
    let dataset = MemDataset::create(&layout.extents);
    (writer, dataset)
}

fn dump<T: Clone + Default>(writer: &mut ArrayHdf5Writer<T>, dataset: &mut MemDataset<T>) {
    let stored = dataset.shape[0];
    if let Some(plan) = writer.flush(stored) {
        dataset.apply(&plan, writer.cache());
        writer.mark_flushed();
    }
}

fn write<T: Clone + Default>(writer: &mut ArrayHdf5Writer<T>, dataset: &mut MemDataset<T>, item: DenseArray<T>) {
    if writer.write(item).unwrap() == WriteOutcome::ChunkFull {
        dump(writer, dataset);
    }
}

fn arr2<T>(rows: Vec<Vec<T>>) -> DenseArray<T> {
    let shape = vec![rows.len(), rows[0].len()];
    DenseArray::from_shape_vec(shape, rows.into_iter().flatten().collect()).unwrap()
}

fn at<T: Clone>(a: &DenseArray<T>, index: &[usize]) -> T {
    let mut offset = 0;
    for (i, n) in index.iter().zip(a.shape().iter()) {
        assert!(i < n);
        offset = offset * n + i;
    }
    a.elements()[offset].clone()
}

#[test]
fn array_writer_new_valid() {
    let writer = ArrayHdf5Writer::<u16>::new(123, vec![1, 2, 3]);
    assert!(writer.is_ok());
}

#[test]
fn array_writer_new_invalid_chunksize() {
    let writer = ArrayHdf5Writer::<u16>::new(0, vec![1, 2, 3]);
    assert!(writer.is_err());
    assert!(matches!(writer, Err(H5rioError::InvalidChunkSize)));
}

#[test]
fn new_invalid_shape() {
    for shape in [vec![0, 1, 1], vec![1, 0, 1], vec![1, 1, 0]] {
        let writer = ArrayHdf5Writer::<u16>::new(123, shape.clone());
        assert_eq!(writer.err(), Some(H5rioError::InvalidItemShape { shape }));
    }
}

#[test]
fn new_checks_chunk_size_before_shape() {
    let writer = ArrayHdf5Writer::<u16>::new(0, vec![1, 0, 1]);
    assert_eq!(writer.err(), Some(H5rioError::InvalidChunkSize));
}

#[test]
fn dataset_layout_is_appendable() {
    let writer = ArrayHdf5Writer::<u16>::new(123, vec![1, 2, 3]).unwrap();
    let layout = writer.dataset_layout();
    assert_eq!(layout.chunk, vec![123, 1, 2, 3]);
    assert_eq!(
        layout.extents,
        vec![Extent::Resizable(0), Extent::Fixed(1), Extent::Fixed(2), Extent::Fixed(3)]
    );
}

#[test]
fn array_writer_round_trip_single() {
    let (mut writer, mut dataset) = create::<i32>(1, vec![2, 3]);

    let data = arr2(vec![vec![-1, 2, -3], vec![4, -5, 6]]);
    let data_copy = arr2(vec![vec![-1, 2, -3], vec![4, -5, 6]]);
    write(&mut writer, &mut dataset, data);

    let read = dataset.read();

    assert_eq!(read.shape(), &[1, 2, 3]);

    assert_eq!(at(&read, &[0, 0, 0]), at(&data_copy, &[0, 0]));
    assert_eq!(at(&read, &[0, 0, 1]), at(&data_copy, &[0, 1]));
    assert_eq!(at(&read, &[0, 0, 2]), at(&data_copy, &[0, 2]));
    assert_eq!(at(&read, &[0, 1, 0]), at(&data_copy, &[1, 0]));
    assert_eq!(at(&read, &[0, 1, 1]), at(&data_copy, &[1, 1]));
    assert_eq!(at(&read, &[0, 1, 2]), at(&data_copy, &[1, 2]));
}

#[test]
fn array_writer_round_trip_double() {
    let (mut writer, mut dataset) = create::<i32>(1, vec![2, 3]);

    let data0 = vec![vec![-1, 2, -3], vec![4, -5, 6]];
    let data1 = vec![vec![-11, 22, -33], vec![44, -55, 66]];
    write(&mut writer, &mut dataset, arr2(data0.clone()));
    write(&mut writer, &mut dataset, arr2(data1.clone()));

    let read = dataset.read();

    assert_eq!(read.shape(), &[2, 2, 3]);

    for i in 0..2 {
        for j in 0..3 {
            assert_eq!(at(&read, &[0, i, j]), data0[i][j]);
            assert_eq!(at(&read, &[1, i, j]), data1[i][j]);
        }
    }
    assert_eq!(at(&read, &[1, 1, 2]), 66);
    assert_eq!(at(&read, &[1, 0, 0]), -11);
}

#[test]
fn array_writer_flush_on_drop() {
    // Write less entries than chunk size and verify that they are still written
    let (mut writer, mut dataset) = create::<i64>(5, vec![2, 3]);

    let data = arr2(vec![vec![-1, 2, -3], vec![4, -5, 6]]);
    assert_eq!(writer.write(data).unwrap(), WriteOutcome::Buffered); // not actually written because of cache

    let read = dataset.read();
    assert_eq!(read.shape(), &[0, 2, 3]);

    // what dropping the writer does: flush what is buffered
    assert_eq!(writer.buffered_entries(), 1);
    dump(&mut writer, &mut dataset);
    let read = dataset.read();
    assert_eq!(read.shape(), &[1, 2, 3]);
    assert_eq!(read.elements(), &vec![-1, 2, -3, 4, -5, 6]);
}

#[test]
fn write_invalid_shape() {
    let (mut writer, mut dataset) = create::<i32>(1, vec![2, 3]);

    let invalid = arr2(vec![vec![1, 2], vec![3, 4]]);
    let out = writer.write(invalid);

    assert_eq!(
        out,
        Err(H5rioError::ItemShapeMismatch { got: vec![2, 2], expected: vec![2, 3] })
    );
    assert!(writer.cache().is_empty());

    let valid = vec![vec![10, 20, 30], vec![40, 50, 60]];
    write(&mut writer, &mut dataset, arr2(valid.clone()));

    let read = dataset.read();

    assert_eq!(read.shape(), &[1, 2, 3]);
    assert_eq!(at(&read, &[0, 0, 0]), valid[0][0]);
    assert_eq!(at(&read, &[0, 0, 1]), valid[0][1]);
    assert_eq!(at(&read, &[0, 0, 2]), valid[0][2]);
    assert_eq!(at(&read, &[0, 1, 0]), valid[1][0]);
    assert_eq!(at(&read, &[0, 1, 1]), valid[1][1]);
    assert_eq!(at(&read, &[0, 1, 2]), valid[1][2]);
}

#[test]
fn chunk_is_written_only_when_full() {
    let (mut writer, mut dataset) = create::<u8>(3, vec![2]);
    let entries = [[1u8, 2], [3, 4], [5, 6], [7, 8]];
    let mut outcomes = Vec::new();
    for e in entries {
        let item = DenseArray::from_shape_vec(vec![2], e.to_vec()).unwrap();
        let outcome = writer.write(item).unwrap();
        outcomes.push(outcome);
        if outcome == WriteOutcome::ChunkFull {
            dump(&mut writer, &mut dataset);
        }
    }
    assert_eq!(
        outcomes,
        vec![WriteOutcome::Buffered, WriteOutcome::Buffered, WriteOutcome::ChunkFull, WriteOutcome::Buffered]
    );
    assert_eq!(dataset.shape, vec![3, 2]);
    assert_eq!(writer.cache(), &vec![7, 8]);
    dump(&mut writer, &mut dataset);
    assert_eq!(dataset.read().elements(), &vec![1, 2, 3, 4, 5, 6, 7, 8]);
    assert_eq!(dataset.read().shape(), &[4, 2]);
}

#[test]
fn flush_plan_selects_the_new_rows() {
    let mut writer = ArrayHdf5Writer::<u8>::new(4, vec![2, 3]).unwrap();
    assert!(writer.flush(7).is_none());
    writer.write(DenseArray::from_shape_vec(vec![2, 3], vec![0; 6]).unwrap()).unwrap();
    writer.write(DenseArray::from_shape_vec(vec![2, 3], vec![1; 6]).unwrap()).unwrap();
    let plan = writer.flush(7).unwrap();
    assert_eq!(plan.entries, 2);
    assert_eq!(plan.resize_to, vec![9, 2, 3]);
    assert_eq!(plan.view_shape, vec![2, 2, 3]);
    assert_eq!(
        plan.selection,
        vec![
            SliceSpec::SliceCount { start: 7, count: 2, step: 1, block: 1 },
            SliceSpec::Unlimited { start: 0, step: 1, block: 1 },
            SliceSpec::Unlimited { start: 0, step: 1, block: 1 },
        ]
    );
    writer.mark_flushed();
    assert!(writer.cache().is_empty());
    assert!(writer.flush(9).is_none());
}

#[test]
fn failed_dump_keeps_the_buffer() {
    let mut writer = ArrayHdf5Writer::<u8>::new(1, vec![1]).unwrap();
    let item = DenseArray::from_shape_vec(vec![1], vec![9]).unwrap();
    assert_eq!(writer.write(item).unwrap(), WriteOutcome::ChunkFull);
    // the dump is not recorded as done: the entry stays buffered
    let item = DenseArray::from_shape_vec(vec![1], vec![8]).unwrap();
    assert_eq!(writer.write(item).unwrap(), WriteOutcome::Buffered);
    assert_eq!(writer.cache(), &vec![9, 8]);
    assert_eq!(writer.flush(0).unwrap().entries, 2);
}

#[test]
fn write_carray_invalid_chunk_shape() {
    let array = DenseArray::from_shape_vec(vec![2, 2, 2], (0..8).collect::<Vec<i32>>()).unwrap();
    for chunk_shape in [vec![1], vec![1, 1], vec![0, 1, 1], vec![1, 0, 1], vec![1, 1, 0]] {
        let out = write_chunked_array(chunk_shape.clone(), array.shape());
        assert_eq!(
            out,
            Err(H5rioError::InvalidChunkShape { chunk_shape, array_shape: vec![2, 2, 2] })
        );
    }
}

#[test]
fn write_carray_round_trip() {
    for (data, shape) in [(vec![1u32, 2, 3], vec![3]), (vec![1, 2, 3, 4, 5, 6], vec![2, 3])] {
        let array = DenseArray::from_shape_vec(shape.clone(), data.clone()).unwrap();
        let layout = write_chunked_array(shape.clone(), array.shape()).unwrap();
        assert_eq!(layout.chunk, shape);
        let extents: Vec<Extent> = shape.iter().map(|s| Extent::Fixed(*s)).collect();
        assert_eq!(layout.extents, extents);
    }
}
