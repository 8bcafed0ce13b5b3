use rtlib::canvas::Canvas;

const BLACK: [u8; 3] = [0, 0, 0];
const WHITE: [u8; 3] = [255, 255, 255];

#[test]
fn get_ppm() {
    let mut canvas = Canvas::new(10, 20, BLACK);
    assert!(canvas.put_pixel(5, 10, WHITE).is_ok());
    let ppm = canvas.into_ppm_string();
    for (i, line) in ppm.lines().enumerate() {
        match i {
            0 => assert_eq!(line, "P3"),
            1 => assert_eq!(line, "10 20"),
            2 => assert_eq!(line, "255"),
            _ => assert!(line.len() <= 70),
        }
    }

    canvas = Canvas::new(5, 3, BLACK);
    let ret = canvas.put_pixel(0, 0, [255, 0, 0]);
    assert!(ret.is_ok());
    let ret = canvas.put_pixel(2, 1, [0, 128, 0]);
    assert!(ret.is_ok());
    let ret = canvas.put_pixel(4, 2, [0, 0, 255]);
    assert!(ret.is_ok());
    let ppm = canvas.into_ppm_string();
    for (i, line) in ppm.lines().enumerate() {
        match i {
            0 => assert_eq!(line, "P3"),
            1 => assert_eq!(line, "5 3"),
            2 => assert_eq!(line, "255"),
            3 => assert_eq!(line, "255 0 0 0 0 0 0 0 0 0 0 0 0 0 0"),
            4 => assert_eq!(line, "0 0 0 0 0 0 0 128 0 0 0 0 0 0 0"),
            5 => assert_eq!(line, "0 0 0 0 0 0 0 0 0 0 0 0 0 0 255"),
            _ => panic!("Unexpected number of lines {}", i),
        }
    }
}

#[test]
fn get_ppm_long_lines() {
    let mut canvas = Canvas::new(10, 2, BLACK);
    canvas.clear([255, 204, 153]);
    let ppm = canvas.into_ppm_string();
    for line in ppm.lines() {
        assert!(line.len() <= 70);
    }

    let mut canvas = Canvas::new(11, 2, BLACK);
    canvas.clear([255, 204, 153]);
    let ret = canvas.put_pixel(1, 1, BLACK);
    assert!(ret.is_ok());
    let ppm = canvas.into_ppm_string();
    for line in ppm.lines() {
        assert!(line.len() <= 70);
    }
    println!("{}", ppm);
}

#[test]
fn get_ppm_ends_with_nl() {
    let mut canvas = Canvas::new(5, 3, BLACK);
    canvas.clear([255, 204, 153]);
    let ppm = canvas.into_ppm_string();
    assert_eq!(ppm.chars().last().unwrap(), '\n');
}

#[test]
fn ppm_wraps_before_seventy_characters() {
    let mut canvas = Canvas::new(10, 2, BLACK);
    canvas.clear([255, 204, 153]);
    let ppm = canvas.into_ppm_string();
    let half = "255 204 153 255 204 153 255 204 153 255 204 153 255 204 153";
    let expected = format!("P3\n10 2\n255\n{}\n{}\n{}\n{}\n", half, half, half, half);
    assert_eq!(ppm, expected);
}

#[test]
fn ppm_of_empty_image() {
    let canvas: Canvas<[u8; 3]> = Canvas::default();
    assert_eq!(canvas.into_ppm_string(), "P3\n0 0\n255\n");
}

#[test]
fn ppm_single_digit_channels() {
    let mut canvas = Canvas::new(2, 1, BLACK);
    assert!(canvas.put_pixel(1, 0, [7, 42, 100]).is_ok());
    assert_eq!(canvas.into_ppm_string(), "P3\n2 1\n255\n0 0 0 7 42 100\n");
}
