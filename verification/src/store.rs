//! The raw store: six flat byte buffers, addressed by partition and row
//! range.
//!
//! Row `r` of a partition is the 784 image bytes from offset `784 * r` and
//! the label bytes from offset `stride * r`, where `stride` is the width the
//! label encoding fixes. A half-open row range `start..end` is the bytes
//! from the first byte of row `start` up to, not including, the first byte
//! of row `end`.

use crate::encoding::LabelEncoding;
use crate::encoding::IMAGE_SIDE;
use crate::encoding::IMAGE_STRIDE;
use crate::error::HarnessError;
use crate::matrix::matrix_clone;
use crate::matrix::matrix_cols;
use crate::matrix::matrix_data;
use crate::matrix::matrix_is;
use crate::matrix::matrix_new;
use crate::matrix::matrix_rows;
use crate::matrix::matrix_wf;
use crate::matrix::split_rows;
use rusty_machine::linalg::Matrix;
use std::ops::Range;
use vstd::prelude::*;
use vstd::slice::slice_subrange;
use vstd::slice::slice_to_vec;

verus! {

/// One of the three fixed splits of the data set.
#[derive(Clone, Copy, Debug, PartialEq, Eq, Structural)]
pub enum Partition {
    Training,
    Validation,
    Test,
}

/// The buffers of one partition as a loader hands them over, with the
/// number of rows it says they hold.
#[derive(Clone, Debug, PartialEq, Eq)]
pub struct RawPartition {
    pub images: Vec<u8>,
    pub labels: Vec<u8>,
    pub rows: usize,
}

/// What one partition holds.
pub struct PartitionView {
    pub images: Seq<u8>,
    pub labels: Seq<u8>,
    pub rows: nat,
}

impl View for RawPartition {
    type V = PartitionView;

    open spec fn view(&self) -> PartitionView {
        PartitionView { images: self.images@, labels: self.labels@, rows: self.rows as nat }
    }
}

impl PartitionView {
    /// The image buffer holds `rows` whole images.
    pub open spec fn images_fit(self) -> bool {
        self.images.len() == IMAGE_STRIDE * self.rows
    }

    /// The label buffer holds `rows` labels of width `stride`.
    pub open spec fn labels_fit(self, stride: nat) -> bool {
        self.labels.len() == stride * self.rows
    }
}

/// What a store holds: the encoding and the three partitions.
pub struct DataView {
    pub encoding: LabelEncoding,
    pub training: PartitionView,
    pub validation: PartitionView,
    pub test: PartitionView,
}

impl DataView {
    /// The store made of these four parts.
    pub open spec fn assemble(
        encoding: LabelEncoding,
        training: PartitionView,
        validation: PartitionView,
        test: PartitionView,
    ) -> DataView {
        DataView { encoding, training, validation, test }
    }

    /// The partition a name stands for.
    pub open spec fn part(self, set: Partition) -> PartitionView {
        match set {
            Partition::Training => self.training,
            Partition::Validation => self.validation,
            Partition::Test => self.test,
        }
    }

    /// Width of one label row.
    pub open spec fn stride(self) -> nat {
        self.encoding.spec_stride()
    }

    /// Number of rows in a partition.
    pub open spec fn rows(self, set: Partition) -> nat {
        self.part(set).rows
    }

    /// Every image buffer holds whole images, as many as its partition has
    /// rows.
    pub open spec fn images_fit(self) -> bool {
        &&& self.training.images_fit()
        &&& self.validation.images_fit()
        &&& self.test.images_fit()
    }

    /// Every label buffer holds label rows of the encoding's width, as many
    /// as its partition has rows.
    pub open spec fn labels_fit(self) -> bool {
        &&& self.training.labels_fit(self.stride())
        &&& self.validation.labels_fit(self.stride())
        &&& self.test.labels_fit(self.stride())
    }

    /// The geometry every store keeps.
    pub open spec fn wf(self) -> bool {
        self.images_fit() && self.labels_fit()
    }

    /// The half-open row range `start..end` lies within the partition.
    pub open spec fn in_range(self, set: Partition, start: int, end: int) -> bool {
        0 <= start <= end <= self.rows(set)
    }

    /// The image bytes of rows `start..end`.
    pub open spec fn image_rows(self, set: Partition, start: int, end: int) -> Seq<u8> {
        self.part(set).images.subrange(IMAGE_STRIDE * start, IMAGE_STRIDE * end)
    }

    /// The label bytes of rows `start..end`.
    pub open spec fn label_rows(self, set: Partition, start: int, end: int) -> Seq<u8> {
        self.part(set).labels.subrange(self.stride() * start, self.stride() * end)
    }
}

/// Offsets of rows grow with the rows: a range within `rows` rows lies
/// within the bytes of those rows.
proof fn lemma_offsets_ordered(stride: nat, start: nat, end: nat, rows: nat)
    by (nonlinear_arith)
    requires
        start <= end <= rows,
    ensures
        stride * start <= stride * end <= stride * rows,
{
}

/// Slicing keeps bytes where they are. In a buffer of rows of `stride`
/// bytes, the rows `start..end` are `stride * (end - start)` bytes, row `r`
/// of them is row `start + r` of the buffer, and byte `c` of that row is
/// byte `stride * (start + r) + c` of the buffer.
pub proof fn lemma_sliced_rows(
    buffer: Seq<u8>,
    stride: nat,
    rows: nat,
    start: int,
    end: int,
    r: int,
    c: int,
)
    requires
        buffer.len() == stride * rows,
        0 <= start <= end <= rows,
        0 <= r < end - start,
        0 <= c < stride,
    ensures
        buffer.subrange(stride * start, stride * end).len() == stride * (end - start),
        split_rows(
            buffer.subrange(stride * start, stride * end),
            (end - start) as nat,
            stride,
        )[r] == buffer.subrange(stride * (start + r), stride * (start + r + 1)),
        buffer.subrange(stride * start, stride * end)[stride * r + c] == buffer[stride * (start
            + r) + c],
{
    lemma_offsets_ordered(stride, start as nat, end as nat, rows);
    lemma_offsets_ordered(stride, r as nat, (r + 1) as nat, (end - start) as nat);
    assert(stride * (end - start) == stride * end - stride * start) by (nonlinear_arith);
    assert(stride * (start + r) == stride * start + stride * r) by (nonlinear_arith);
    assert(stride * (start + r + 1) == stride * start + stride * (r + 1)) by (nonlinear_arith);
    assert(stride * (r + 1) == stride * r + stride) by (nonlinear_arith);
    assert(r * stride == stride * r && (r + 1) * stride == stride * (r + 1))
        by (nonlinear_arith);
    let slice = buffer.subrange(stride * start, stride * end);
    assert(slice.subrange(stride * r, stride * (r + 1)) =~= buffer.subrange(
        stride * (start + r),
        stride * (start + r + 1),
    ));
}

/// The image matrix of a row range has one partition row per matrix row:
/// row `r` of it is image `start + r`, and its cell in column `c` is byte
/// `784 * (start + r) + c` of the image buffer.
pub proof fn lemma_image_rows_addressed(
    store: DataView,
    set: Partition,
    start: int,
    end: int,
    r: int,
    c: int,
)
    requires
        store.wf(),
        store.in_range(set, start, end),
        0 <= r < end - start,
        0 <= c < IMAGE_STRIDE,
    ensures
        store.image_rows(set, start, end).len() == IMAGE_STRIDE * (end - start),
        split_rows(
            store.image_rows(set, start, end),
            (end - start) as nat,
            IMAGE_STRIDE as nat,
        )[r] == store.image_rows(set, start + r, start + r + 1),
        store.image_rows(set, start, end)[IMAGE_STRIDE * r + c] == store.part(
            set,
        ).images[IMAGE_STRIDE * (start + r) + c],
{
    lemma_sliced_rows(
        store.part(set).images,
        IMAGE_STRIDE as nat,
        store.rows(set),
        start,
        end,
        r,
        c,
    );
}

/// The label matrix of a row range has one partition row per matrix row:
/// row `r` of it is label row `start + r`, and its cell in column `c` is
/// byte `stride * (start + r) + c` of the label buffer.
pub proof fn lemma_label_rows_addressed(
    store: DataView,
    set: Partition,
    start: int,
    end: int,
    r: int,
    c: int,
)
    requires
        store.wf(),
        store.in_range(set, start, end),
        0 <= r < end - start,
        0 <= c < store.stride(),
    ensures
        store.label_rows(set, start, end).len() == store.stride() * (end - start),
        split_rows(store.label_rows(set, start, end), (end - start) as nat, store.stride())[r]
            == store.label_rows(set, start + r, start + r + 1),
        store.label_rows(set, start, end)[store.stride() * r + c] == store.part(
            set,
        ).labels[store.stride() * (start + r) + c],
{
    lemma_sliced_rows(store.part(set).labels, store.stride(), store.rows(set), start, end, r, c);
}

/// Whether `buffer` is exactly `rows` rows of `stride` bytes.
fn holds_rows(buffer: &Vec<u8>, stride: usize, rows: usize) -> (fits: bool)
    ensures
        fits == (buffer@.len() == stride * rows),
{
    assert(0 <= stride * rows) by (nonlinear_arith);
    let len: usize = buffer.len();
    match stride.checked_mul(rows) {
        Some(bytes) => len == bytes,
        None => false,
    }
}

/// The rows `start..end` of a buffer of rows of `stride` bytes each, as a
/// matrix with one buffer row per matrix row.
fn cut_rows(buffer: &Vec<u8>, stride: usize, start: usize, end: usize) -> (m: Matrix<u8>)
    requires
        start <= end,
        stride * end <= buffer@.len(),
    ensures
        matrix_wf(m),
        matrix_is(
            m,
            end - start,
            stride as int,
            buffer@.subrange(stride * start, stride * end),
        ),
{
    let len: usize = buffer.len();
    let count: usize = end - start;
    assert(0 <= stride * start <= stride * end && count * stride == stride * end - stride * start)
        by (nonlinear_arith)
        requires
            start <= end,
            count == end - start,
    ;
    let raw = slice_to_vec(slice_subrange(buffer.as_slice(), stride * start, stride * end));
    matrix_new(count, stride, raw)
}

/// One sample: its image as a 28 by 28 matrix and its label row in the
/// encoding of the store it was taken from.
#[derive(Debug)]
pub struct Digit {
    pub image: Matrix<u8>,
    pub label: Vec<u8>,
}

impl Clone for Digit {
    /// A copy with the same image shape, pixels and label.
    fn clone(&self) -> (copy: Digit)
        ensures
            matrix_is(
                copy.image,
                matrix_rows(self.image) as int,
                matrix_cols(self.image) as int,
                matrix_data(self.image),
            ),
            copy.label@ == self.label@,
    {
        Digit { image: matrix_clone(&self.image), label: slice_to_vec(self.label.as_slice()) }
    }
}

/// The raw store. Built once from what a loader supplies, read-only after.
pub struct MnistData {
    encoding: LabelEncoding,
    training: RawPartition,
    validation: RawPartition,
    test: RawPartition,
}

impl View for MnistData {
    type V = DataView;

    closed spec fn view(&self) -> DataView {
        DataView::assemble(self.encoding, self.training@, self.validation@, self.test@)
    }
}

impl MnistData {
    #[verifier::type_invariant]
    spec fn geometry(self) -> bool {
        self@.wf()
    }

    /// Takes over the buffers of the three partitions.
    ///
    /// Succeeds exactly when every image buffer is 784 bytes for each row
    /// its partition declares and every label buffer is one label row of
    /// the encoding's width for each. Fails with `OutOfRange` when some
    /// image buffer is not, else with `EncodingMismatch` when some label
    /// buffer is not.
    pub fn new(
        encoding: LabelEncoding,
        training: RawPartition,
        validation: RawPartition,
        test: RawPartition,
    ) -> (result: Result<MnistData, HarnessError>)
        ensures
            result is Ok <==> DataView::assemble(encoding, training@, validation@, test@).wf(),
            result matches Ok(store) ==> store@ == DataView::assemble(
                encoding,
                training@,
                validation@,
                test@,
            ),
            result matches Err(e) ==> e == if DataView::assemble(
                encoding,
                training@,
                validation@,
                test@,
            ).images_fit() {
                HarnessError::EncodingMismatch
            } else {
                HarnessError::OutOfRange
            },
    {
        let images_fit = holds_rows(&training.images, IMAGE_STRIDE, training.rows) && holds_rows(
            &validation.images,
            IMAGE_STRIDE,
            validation.rows,
        ) && holds_rows(&test.images, IMAGE_STRIDE, test.rows);
        if !images_fit {
            return Err(HarnessError::OutOfRange);
        }
        let stride: usize = encoding.stride();
        let labels_fit = holds_rows(&training.labels, stride, training.rows) && holds_rows(
            &validation.labels,
            stride,
            validation.rows,
        ) && holds_rows(&test.labels, stride, test.rows);
        if !labels_fit {
            return Err(HarnessError::EncodingMismatch);
        }
        Ok(MnistData { encoding, training, validation, test })
    }

    /// The label encoding the store was built with.
    pub fn encoding(&self) -> (encoding: LabelEncoding)
        ensures
            encoding == self@.encoding,
    {
        self.encoding
    }

    /// Number of rows in a partition. Its image buffer holds that many
    /// images and its label buffer that many label rows.
    pub fn row_count(&self, set: Partition) -> (rows: usize)
        ensures
            rows == self@.rows(set),
            self@.wf(),
    {
        proof {
            use_type_invariant(self);
        }
        self.partition(set).rows
    }

    /// The buffers of one partition.
    fn partition(&self, set: Partition) -> (part: &RawPartition)
        ensures
            part@ == self@.part(set),
            part@.images_fit(),
            part@.labels_fit(self@.stride()),
    {
        proof {
            use_type_invariant(self);
        }
        match set {
            Partition::Training => &self.training,
            Partition::Validation => &self.validation,
            Partition::Test => &self.test,
        }
    }

    /// Whether the row range lies within the partition: it does not run
    /// backwards and does not end past the last row.
    pub fn in_range(&self, set: Partition, range: &Range<usize>) -> (within: bool)
        ensures
            within == self@.in_range(set, range.start as int, range.end as int),
    {
        range.start <= range.end && range.end <= self.partition(set).rows
    }

    /// Byte offsets into the image buffer of the rows `range` of a
    /// partition: `784 * range.start .. 784 * range.end`.
    ///
    /// Fails with `OutOfRange` exactly when the range runs backwards or
    /// ends past the partition's last row.
    pub fn image_offsets(&self, set: Partition, range: Range<usize>) -> (result: Result<
        Range<usize>,
        HarnessError,
    >)
        ensures
            result is Ok <==> self@.in_range(set, range.start as int, range.end as int),
            result matches Ok(bytes) ==> {
                &&& bytes.start == IMAGE_STRIDE * range.start
                &&& bytes.end == IMAGE_STRIDE * range.end
                &&& bytes.start <= bytes.end <= self@.part(set).images.len()
            },
            result matches Err(e) ==> e == HarnessError::OutOfRange,
    {
        if !self.in_range(set, &range) {
            return Err(HarnessError::OutOfRange);
        }
        let len: usize = self.partition(set).images.len();
        Ok(IMAGE_STRIDE * range.start..IMAGE_STRIDE * range.end)
    }

    /// Byte offsets into the label buffer of the rows `range` of a
    /// partition: `stride * range.start .. stride * range.end`, where
    /// `stride` is the width the encoding fixes.
    ///
    /// Fails with `OutOfRange` exactly when the range runs backwards or
    /// ends past the partition's last row.
    pub fn label_offsets(&self, set: Partition, range: Range<usize>) -> (result: Result<
        Range<usize>,
        HarnessError,
    >)
        ensures
            result is Ok <==> self@.in_range(set, range.start as int, range.end as int),
            result matches Ok(bytes) ==> {
                &&& bytes.start == self@.stride() * range.start
                &&& bytes.end == self@.stride() * range.end
                &&& bytes.start <= bytes.end <= self@.part(set).labels.len()
            },
            result matches Err(e) ==> e == HarnessError::OutOfRange,
    {
        if !self.in_range(set, &range) {
            return Err(HarnessError::OutOfRange);
        }
        let part = self.partition(set);
        let len: usize = part.labels.len();
        let stride: usize = self.encoding.stride();
        proof {
            lemma_offsets_ordered(
                stride as nat,
                range.start as nat,
                range.end as nat,
                part.rows as nat,
            );
        }
        Ok(stride * range.start..stride * range.end)
    }

    /// The images of the rows `start..end`, which the caller has shown to
    /// lie within the partition.
    pub(crate) fn images_within(&self, set: Partition, start: usize, end: usize) -> (m: Matrix<u8>)
        requires
            self@.in_range(set, start as int, end as int),
        ensures
            matrix_wf(m),
            matrix_is(
                m,
                end - start,
                IMAGE_STRIDE as int,
                self@.image_rows(set, start as int, end as int),
            ),
    {
        cut_rows(&self.partition(set).images, IMAGE_STRIDE, start, end)
    }

    /// The labels of the rows `start..end`, which the caller has shown to
    /// lie within the partition.
    pub(crate) fn labels_within(&self, set: Partition, start: usize, end: usize) -> (m: Matrix<u8>)
        requires
            self@.in_range(set, start as int, end as int),
        ensures
            matrix_wf(m),
            matrix_is(
                m,
                end - start,
                self@.stride() as int,
                self@.label_rows(set, start as int, end as int),
            ),
    {
        let part = self.partition(set);
        let stride: usize = self.encoding.stride();
        proof {
            lemma_offsets_ordered(stride as nat, start as nat, end as nat, part.rows as nat);
        }
        cut_rows(&part.labels, stride, start, end)
    }

    /// The images of the rows `range` of a partition, one image per matrix
    /// row: `range.end - range.start` rows of 784 columns, each cell the raw
    /// byte at the same place in the buffer, unscaled.
    ///
    /// Fails with `OutOfRange` exactly when the range runs backwards or
    /// ends past the partition's last row. An empty range gives a matrix of
    /// no rows and 784 columns.
    pub fn image_matrix(&self, set: Partition, range: Range<usize>) -> (result: Result<
        Matrix<u8>,
        HarnessError,
    >)
        ensures
            result is Ok <==> self@.in_range(set, range.start as int, range.end as int),
            result matches Ok(m) ==> {
                &&& matrix_wf(m)
                &&& matrix_is(
                    m,
                    range.end - range.start,
                    IMAGE_STRIDE as int,
                    self@.image_rows(set, range.start as int, range.end as int),
                )
            },
            result matches Err(e) ==> e == HarnessError::OutOfRange,
    {
        if !self.in_range(set, &range) {
            return Err(HarnessError::OutOfRange);
        }
        Ok(self.images_within(set, range.start, range.end))
    }

    /// The labels of the rows `range` of a partition, one label per matrix
    /// row: `range.end - range.start` rows as wide as the encoding fixes (1
    /// for `Digit`, 10 for `OneHot`), each cell the raw byte at the same
    /// place in the buffer.
    ///
    /// Fails with `OutOfRange` exactly when the range runs backwards or
    /// ends past the partition's last row. An empty range gives a matrix of
    /// no rows and that many columns.
    pub fn label_matrix(&self, set: Partition, range: Range<usize>) -> (result: Result<
        Matrix<u8>,
        HarnessError,
    >)
        ensures
            result is Ok <==> self@.in_range(set, range.start as int, range.end as int),
            result matches Ok(m) ==> {
                &&& matrix_wf(m)
                &&& matrix_is(
                    m,
                    range.end - range.start,
                    self@.stride() as int,
                    self@.label_rows(set, range.start as int, range.end as int),
                )
            },
            result matches Err(e) ==> e == HarnessError::OutOfRange,
    {
        if !self.in_range(set, &range) {
            return Err(HarnessError::OutOfRange);
        }
        Ok(self.labels_within(set, range.start, range.end))
    }

    /// The sample at row `index` of a partition: its image reshaped to 28
    /// by 28 and its label row.
    ///
    /// Fails with `OutOfRange` exactly when the partition has no such row.
    pub fn digit(&self, set: Partition, index: usize) -> (result: Result<Digit, HarnessError>)
        ensures
            result is Ok <==> index < self@.rows(set),
            result matches Ok(digit) ==> {
                &&& matrix_wf(digit.image)
                &&& matrix_is(
                    digit.image,
                    IMAGE_SIDE as int,
                    IMAGE_SIDE as int,
                    self@.image_rows(set, index as int, index + 1),
                )
                &&& digit.label@ == self@.label_rows(set, index as int, index + 1)
            },
            result matches Err(e) ==> e == HarnessError::OutOfRange,
    {
        let part = self.partition(set);
        if index >= part.rows {
            return Err(HarnessError::OutOfRange);
        }
        let image_len: usize = part.images.len();
        let label_len: usize = part.labels.len();
        let stride: usize = self.encoding.stride();
        assert(stride * index + stride == stride * (index + 1)) by (nonlinear_arith);
        proof {
            lemma_offsets_ordered(
                stride as nat,
                index as nat,
                (index + 1) as nat,
                part.rows as nat,
            );
        }
        let raw_image = slice_to_vec(
            slice_subrange(
                part.images.as_slice(),
                IMAGE_STRIDE * index,
                IMAGE_STRIDE * index + IMAGE_STRIDE,
            ),
        );
        let label = slice_to_vec(
            slice_subrange(part.labels.as_slice(), stride * index, stride * index + stride),
        );
        Ok(Digit { image: matrix_new(IMAGE_SIDE, IMAGE_SIDE, raw_image), label })
    }
}

} // verus!
