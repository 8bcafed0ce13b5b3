use rtlib::matrix::{submatrix3, submatrix4, transpose};

const IDENTITY: [[f32; 4]; 4] = [
    [1.0, 0.0, 0.0, 0.0],
    [0.0, 1.0, 0.0, 0.0],
    [0.0, 0.0, 1.0, 0.0],
    [0.0, 0.0, 0.0, 1.0],
];

#[test]
fn matrix_mat4_transpose() {
    let m = [
        [0.0, 9.0, 3.0, 0.0],
        [9.0, 8.0, 0.0, 8.0],
        [1.0, 8.0, 5.0, 3.0],
        [0.0, 0.0, 5.0, 8.0],
    ];
    let exp = [
        [0.0, 9.0, 1.0, 0.0],
        [9.0, 8.0, 8.0, 0.0],
        [3.0, 0.0, 5.0, 5.0],
        [0.0, 8.0, 3.0, 8.0],
    ];
    assert_eq!(exp, transpose(&m));
    assert_eq!(IDENTITY, transpose(&IDENTITY));
}

#[test]
fn matrix_submatrix() {
    let m4: [[f32; 4]; 4] = [
        [-6.0, 1.0, 1.0, 6.0],
        [-8.0, 5.0, 8.0, 6.0],
        [-1.0, 0.0, 8.0, 2.0],
        [-7.0, 1.0, -1.0, 1.0],
    ];
    let exp_m3_21 = [[-6.0, 1.0, 6.0], [-8.0, 8.0, 6.0], [-7.0, -1.0, 1.0]];
    let exp_m3_00 = [[5.0, 8.0, 6.0], [0.0, 8.0, 2.0], [1.0, -1.0, 1.0]];
    let exp_m3_33 = [[-6.0, 1.0, 1.0], [-8.0, 5.0, 8.0], [-1.0, 0.0, 8.0]];
    assert_eq!(exp_m3_00, submatrix4(&m4, 0, 0));
    assert_eq!(exp_m3_21, submatrix4(&m4, 2, 1));
    assert_eq!(exp_m3_33, submatrix4(&m4, 3, 3));

    let m3: [[f32; 3]; 3] = [[1.0, 5.0, 0.0], [-3.0, 2.0, 7.0], [0.0, 6.0, -3.0]];
    let exp_m2_00 = [[2.0, 7.0], [6.0, -3.0]];
    let exp_m2_02 = [[-3.0, 2.0], [0.0, 6.0]];
    let exp_m2_11 = [[1.0, 0.0], [0.0, -3.0]];
    let exp_m2_10 = [[5.0, 0.0], [6.0, -3.0]];
    let exp_m2_21 = [[1.0, 0.0], [-3.0, 7.0]];
    assert_eq!(exp_m2_00, submatrix3(&m3, 0, 0));
    assert_eq!(exp_m2_02, submatrix3(&m3, 0, 2));
    assert_eq!(exp_m2_11, submatrix3(&m3, 1, 1));
    assert_eq!(exp_m2_10, submatrix3(&m3, 1, 0));
    assert_eq!(exp_m2_21, submatrix3(&m3, 2, 1));
}

#[test]
fn transpose_twice_is_identity_map() {
    let m: [[i32; 4]; 4] = [[1, 2, 3, 4], [5, 6, 7, 8], [9, 10, 11, 12], [13, 14, 15, 16]];
    assert_eq!(transpose(&transpose(&m)), m);
}
