use riptide::frame::Frame;
use riptide::order::{identity_rows, random_row_order};
use riptide::pixel::{Color, Pixel};
use riptide::protocol::{encode_frame, release_the_kraken, EncodeError};

fn frame_of(colors: Vec<Vec<Color>>) -> Frame {
    let lanes = colors
        .into_iter()
        .map(|lane| lane.into_iter().map(Pixel::new).collect())
        .collect();
    Frame::new(lanes).unwrap()
}

fn gradient(rows: usize, cols: usize) -> Frame {
    let mut colors = Vec::new();
    for r in 0..rows {
        let mut lane = Vec::new();
        for c in 0..cols {
            lane.push(Color::Rgb(r as u8, c as u8, (r * cols + c) as u8));
        }
        colors.push(lane);
    }
    frame_of(colors)
}

/// Splits the bytes of a send into `(x, y, hex)` per command, checking the
/// shape of each line on the way.
fn parse(bytes: &[u8]) -> Vec<(usize, usize, String)> {
    let text = String::from_utf8(bytes.to_vec()).unwrap();
    if text.is_empty() {
        return Vec::new();
    }
    assert!(text.ends_with('\n'));
    let mut out = Vec::new();
    for line in text[..text.len() - 1].split('\n') {
        let parts: Vec<&str> = line.split(' ').collect();
        assert_eq!(parts.len(), 4);
        assert_eq!(parts[0], "PX");
        for coord in [parts[1], parts[2]] {
            assert!(!coord.is_empty());
            assert!(coord.bytes().all(|b| b.is_ascii_digit()));
            assert!(coord == "0" || !coord.starts_with('0'));
        }
        out.push((
            parts[1].parse::<usize>().unwrap(),
            parts[2].parse::<usize>().unwrap(),
            parts[3].to_string(),
        ));
    }
    out
}

#[test]
fn single_pixel_command_is_exact() {
    let frame = frame_of(vec![vec![Color::Rgb(255, 0, 0)]]);
    let bytes = encode_frame(&frame, &vec![0], (5, 10)).unwrap();
    assert_eq!(bytes, b"PX 5 10 FF0000\n".to_vec());
}

#[test]
fn send_of_single_pixel_is_exact() {
    let frame = frame_of(vec![vec![Color::Rgb(0, 255, 0)]]);
    let bytes = release_the_kraken(&frame, (5, 10)).unwrap();
    assert_eq!(bytes, b"PX 5 10 00FF00\n".to_vec());
}

#[test]
fn rows_go_out_in_the_given_order_columns_left_to_right() {
    let frame = frame_of(vec![
        vec![Color::Rgb(1, 2, 3), Color::Rgb(4, 5, 6)],
        vec![Color::Rgb(7, 8, 9), Color::Rgb(10, 11, 12)],
    ]);
    let natural = encode_frame(&frame, &vec![0, 1], (0, 0)).unwrap();
    assert_eq!(
        natural,
        b"PX 0 0 010203\nPX 1 0 040506\nPX 0 1 070809\nPX 1 1 0A0B0C\n".to_vec()
    );
    let swapped = encode_frame(&frame, &vec![1, 0], (0, 0)).unwrap();
    assert_eq!(
        swapped,
        b"PX 0 1 070809\nPX 1 1 0A0B0C\nPX 0 0 010203\nPX 1 0 040506\n".to_vec()
    );
}

#[test]
fn two_by_two_frame_emits_each_coordinate_once() {
    let frame = frame_of(vec![
        vec![Color::Rgb(0x11, 0, 0), Color::Rgb(0x22, 0, 0)],
        vec![Color::Rgb(0x33, 0, 0), Color::Rgb(0x44, 0, 0)],
    ]);
    let bytes = release_the_kraken(&frame, (0, 0)).unwrap();
    let mut cmds = parse(&bytes);
    assert_eq!(cmds.len(), 4);
    cmds.sort();
    assert_eq!(
        cmds,
        vec![
            (0, 0, "110000".to_string()),
            (0, 1, "330000".to_string()),
            (1, 0, "220000".to_string()),
            (1, 1, "440000".to_string()),
        ]
    );
}

#[test]
fn send_covers_every_pixel_exactly_once() {
    let (rows, cols, xo, yo) = (7usize, 5usize, 100usize, 2000usize);
    let frame = gradient(rows, cols);
    let bytes = release_the_kraken(&frame, (xo, yo)).unwrap();
    let mut cmds = parse(&bytes);
    assert_eq!(cmds.len(), rows * cols);
    cmds.sort();
    let mut expected = Vec::new();
    for r in 0..rows {
        for c in 0..cols {
            let hex = format!("{:02X}{:02X}{:02X}", r, c, r * cols + c);
            expected.push((c + xo, r + yo, hex));
        }
    }
    expected.sort();
    assert_eq!(cmds, expected);
}

#[test]
fn columns_run_left_to_right_within_each_row() {
    let frame = gradient(6, 4);
    let cmds = parse(&release_the_kraken(&frame, (3, 9)).unwrap());
    for row in cmds.chunks(4) {
        let y = row[0].1;
        for (c, cmd) in row.iter().enumerate() {
            assert_eq!(cmd.0, c + 3);
            assert_eq!(cmd.1, y);
        }
    }
}

#[test]
fn two_sends_emit_the_same_pixels() {
    let frame = gradient(9, 3);
    let mut first = parse(&release_the_kraken(&frame, (1, 1)).unwrap());
    let mut second = parse(&release_the_kraken(&frame, (1, 1)).unwrap());
    first.sort();
    second.sort();
    assert_eq!(first, second);
}

#[test]
fn row_order_varies_between_sends() {
    let frame = gradient(16, 1);
    let natural = encode_frame(&frame, &identity_rows(16), (0, 0)).unwrap();
    let mut differs = false;
    for _ in 0..64 {
        if release_the_kraken(&frame, (0, 0)).unwrap() != natural {
            differs = true;
        }
    }
    assert!(differs);
}

#[test]
fn random_row_order_is_a_rearrangement() {
    for n in [0usize, 1, 2, 17, 300] {
        let mut rows = random_row_order(n);
        assert_eq!(rows.len(), n);
        rows.sort();
        assert_eq!(rows, (0..n).collect::<Vec<usize>>());
    }
}

#[test]
fn random_row_order_is_not_always_the_identity() {
    let natural = identity_rows(16);
    assert_eq!(natural, (0..16).collect::<Vec<usize>>());
    let mut differs = false;
    for _ in 0..64 {
        if random_row_order(16) != natural {
            differs = true;
        }
    }
    assert!(differs);
}

#[test]
fn coordinates_are_plain_decimal() {
    let frame = frame_of(vec![vec![Color::Rgb(0, 0, 0)]]);
    let cases: Vec<(usize, &str)> = vec![
        (0, "0"),
        (7, "7"),
        (9, "9"),
        (10, "10"),
        (99, "99"),
        (100, "100"),
        (1009, "1009"),
        (65535, "65535"),
        (1234567890, "1234567890"),
    ];
    for (n, text) in cases {
        let bytes = encode_frame(&frame, &vec![0], (n, n)).unwrap();
        let expected = format!("PX {} {} 000000\n", text, text);
        assert_eq!(bytes, expected.into_bytes());
    }
}

#[test]
fn decimal_text_reads_back_as_the_number() {
    let frame = frame_of(vec![vec![Color::Rgb(0, 0, 0)]]);
    let mut n: usize = 0;
    for step in 0..200usize {
        let bytes = encode_frame(&frame, &vec![0], (n, step)).unwrap();
        let cmds = parse(&bytes);
        assert_eq!(cmds, vec![(n, step, "000000".to_string())]);
        n = n.wrapping_mul(31).wrapping_add(step * 7919 + 1);
    }
}

#[test]
fn largest_coordinate_is_encoded() {
    let frame = frame_of(vec![vec![Color::Rgb(0, 0, 0)]]);
    let bytes = encode_frame(&frame, &vec![0], (usize::MAX, usize::MAX)).unwrap();
    let expected = format!("PX {} {} 000000\n", usize::MAX, usize::MAX);
    assert_eq!(bytes, expected.into_bytes());
}

#[test]
fn offset_that_overflows_is_refused() {
    let frame = gradient(2, 2);
    assert_eq!(
        encode_frame(&frame, &vec![0, 1], (usize::MAX, 0)),
        Err(EncodeError::OffsetOverflow)
    );
    assert_eq!(
        encode_frame(&frame, &vec![0, 1], (0, usize::MAX)),
        Err(EncodeError::OffsetOverflow)
    );
    assert_eq!(
        release_the_kraken(&frame, (usize::MAX, usize::MAX)),
        Err(EncodeError::OffsetOverflow)
    );
    assert!(encode_frame(&frame, &vec![0, 1], (usize::MAX - 1, usize::MAX - 1)).is_ok());
}

#[test]
fn overflow_is_reported_before_a_bad_row() {
    let frame = gradient(2, 2);
    assert_eq!(
        encode_frame(&frame, &vec![5], (usize::MAX, 0)),
        Err(EncodeError::OffsetOverflow)
    );
}

#[test]
fn row_out_of_range_is_refused() {
    let frame = gradient(2, 2);
    assert_eq!(
        encode_frame(&frame, &vec![0, 2], (0, 0)),
        Err(EncodeError::RowOutOfRange)
    );
    assert_eq!(
        encode_frame(&frame, &vec![usize::MAX], (0, 0)),
        Err(EncodeError::RowOutOfRange)
    );
}

#[test]
fn row_list_need_not_cover_the_frame() {
    let frame = gradient(3, 1);
    let bytes = encode_frame(&frame, &vec![2, 2], (0, 0)).unwrap();
    assert_eq!(bytes, b"PX 0 2 020002\nPX 0 2 020002\n".to_vec());
    assert_eq!(encode_frame(&frame, &vec![], (0, 0)), Ok(Vec::new()));
}

#[test]
fn frame_without_pixels_sends_nothing() {
    let no_rows = Frame::new(Vec::new()).unwrap();
    assert_eq!(release_the_kraken(&no_rows, (3, 4)), Ok(Vec::new()));
    assert_eq!(
        release_the_kraken(&no_rows, (usize::MAX, usize::MAX)),
        Ok(Vec::new())
    );
    let no_columns = Frame::new(vec![Vec::new(), Vec::new()]).unwrap();
    assert_eq!(release_the_kraken(&no_columns, (3, 4)), Ok(Vec::new()));
    assert_eq!(
        release_the_kraken(&no_columns, (usize::MAX, usize::MAX)),
        Ok(Vec::new())
    );
}

#[test]
fn alpha_pixels_send_eight_hex_digits() {
    let frame = frame_of(vec![vec![
        Color::Rgba(0xDE, 0xAD, 0xBE, 0xEF),
        Color::Rgba(0, 1, 2, 3),
    ]]);
    let bytes = encode_frame(&frame, &vec![0], (0, 0)).unwrap();
    assert_eq!(bytes, b"PX 0 0 DEADBEEF\nPX 1 0 00010203\n".to_vec());
}
