use vstd::prelude::*;

verus! {

/// Pixel rows and columns of one dataset image.
pub const NUMBER_OF_ROWS: usize = 28;

pub const NUMBER_OF_COLUMNS: usize = 28;

/// Flattens square pixel grids row-major into lines of 784 bytes.
pub fn selialize_minst(image_datas: &Vec<[[u8; 28]; 28]>) -> (r: Vec<Vec<u8>>)
    ensures
        r@.len() == image_datas@.len(),
        forall|i: int| 0 <= i < r@.len() ==> (#[trigger] r@[i])@.len() == 784,
        forall|i: int, row: int, col: int|
            #![trigger r@[i]@[row * 28 + col]]
            0 <= i < r@.len() && 0 <= row < 28 && 0 <= col < 28 ==> r@[i]@[row * 28 + col]
                == image_datas@[i]@[row]@[col],
{
    let mut lines: Vec<Vec<u8>> = Vec::new();
    let count = image_datas.len();
    let mut i: usize = 0;
    while i < count
        invariant
            count == image_datas@.len(),
            i <= count,
            lines@.len() == i,
            forall|p: int| 0 <= p < i ==> (#[trigger] lines@[p])@.len() == 784,
            forall|p: int, row: int, col: int|
                #![trigger lines@[p]@[row * 28 + col]]
                0 <= p < i && 0 <= row < 28 && 0 <= col < 28 ==> lines@[p]@[row * 28 + col]
                    == image_datas@[p]@[row]@[col],
        decreases count - i,
    {
        let image = image_datas[i];
        let mut selialized_image: Vec<u8> = Vec::new();
        let mut row: usize = 0;
        while row < NUMBER_OF_ROWS
            invariant
                row <= 28,
                image == image_datas@[i as int],
                i < count,
                count == image_datas@.len(),
                selialized_image@.len() == row * 28,
                forall|p: int, col: int|
                    0 <= p < row && 0 <= col < 28 ==> selialized_image@[#[trigger] (p * 28 + col)]
                        == image_datas@[i as int]@[p]@[col],
            decreases 28 - row,
        {
            let mut col: usize = 0;
            while col < NUMBER_OF_COLUMNS
                invariant
                    row < 28,
                    col <= 28,
                    image == image_datas@[i as int],
                    i < count,
                    count == image_datas@.len(),
                    selialized_image@.len() == row * 28 + col,
                    forall|p: int, q: int|
                        0 <= p < row && 0 <= q < 28 ==> selialized_image@[#[trigger] (p * 28 + q)]
                            == image_datas@[i as int]@[p]@[q],
                    forall|q: int|
                        0 <= q < col ==> selialized_image@[row as int * 28 + q] == image_datas@[
                            i as int
                        ]@[row as int]@[q],
                decreases 28 - col,
            {
                selialized_image.push(image[row][col]);
                col = col + 1;
            }
            row = row + 1;
            proof {
                assert forall|p: int, q: int|
                    0 <= p < row && 0 <= q < 28 implies selialized_image@[#[trigger] (p * 28 + q)]
                        == image_datas@[i as int]@[p]@[q] by {
                    assert(0 <= p * 28 + q < row * 28) by (nonlinear_arith)
                        requires 0 <= p < row, 0 <= q < 28;
                }
            }
        }
        lines.push(selialized_image);
        i = i + 1;
        proof {
            assert forall|p: int, row2: int, col2: int|
                #![trigger lines@[p]@[row2 * 28 + col2]]
                0 <= p < i && 0 <= row2 < 28 && 0 <= col2 < 28 implies lines@[p]@[row2 * 28
                + col2] == image_datas@[p]@[row2]@[col2] by {
                assert(0 <= row2 * 28 + col2 < 784) by (nonlinear_arith)
                    requires 0 <= row2 < 28, 0 <= col2 < 28;
            }
        }
    }
    lines
}

} // verus!
