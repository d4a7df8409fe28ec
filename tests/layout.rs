use render::transpose;

#[test]
fn mat4f_test_transpose() {
    let a: [[f32; 4]; 4] = [
        [00.0, 01.0, 02.0, 03.0],
        [07.0, 06.0, 05.0, 04.0],
        [08.0, 09.0, 10.0, 11.0],
        [15.0, 14.0, 13.0, 12.0],
    ];
    let b: [[f32; 4]; 4] = [
        [00.0, 07.0, 08.0, 15.0],
        [01.0, 06.0, 09.0, 14.0],
        [02.0, 05.0, 10.0, 13.0],
        [03.0, 04.0, 11.0, 12.0],
    ];
    assert_eq!(transpose(&a), b);
}

#[test]
fn mat2f_test_transpose() {
    let a: [[f32; 2]; 2] = [[1.0, 2.0], [3.0, 4.0]];
    let b: [[f32; 2]; 2] = [[1.0, 3.0], [2.0, 4.0]];
    assert_eq!(transpose(&a), b);
}

#[test]
fn mat3f_test_transpose() {
    let a: [[f32; 3]; 3] = [[1.0, 2.0, 3.0], [4.0, 5.0, 6.0], [7.0, 8.0, 9.0]];
    let b: [[f32; 3]; 3] = [[1.0, 4.0, 7.0], [2.0, 5.0, 8.0], [3.0, 6.0, 9.0]];
    assert_eq!(transpose(&a), b);
}

#[test]
fn transpose_twice_gives_back_the_square() {
    let a: [[i32; 3]; 3] = [[-1, 2, 3], [4, -5, 6], [7, 8, -9]];
    assert_eq!(transpose(&transpose(&a)), a);
    let rows: [[f32; 2]; 2] = [[-1.0, 2.0], [-3.0, 4.0]];
    assert_eq!(transpose(&transpose(&rows)), rows);
}

#[test]
fn transpose_of_single_and_empty_squares() {
    let one: [[u8; 1]; 1] = [[7]];
    assert_eq!(transpose(&one), one);
    let none: [[u8; 0]; 0] = [];
    assert_eq!(transpose(&none), none);
}
