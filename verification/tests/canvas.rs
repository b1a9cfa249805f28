use braille_rs::canvas::Canvas;
use braille_rs::error::IndexError;

#[test]
fn canvas_with_size() {
    let c = Canvas::with_size(3, 6);
    println!("{:?}", c.to_string());
    assert_eq!(c.to_string(), "\u{2800}\u{2800}\n\u{2800}\u{2800}");

    let c = Canvas::with_size(2, 4);
    println!("{:?}", c.to_string());
    assert_eq!(c.to_string(), "\u{2800}");

    let c = Canvas::with_size(4, 4);
    println!("{:?}", c.to_string());
    assert_eq!(c.to_string(), "\u{2800}\u{2800}");

    let c = Canvas::with_size(7, 10);
    println!("{:?}", c);
    assert_eq!(c.columns(), 4);
    assert_eq!(c.rows(), 3);
}

#[test]
fn canvas_set() {
    let mut c = Canvas::with_size(7, 10);
    println!("{} {} {}", c.to_string(), c.columns(), c.rows());

    c.set(0, 0).unwrap();
    c.set(6, 9).unwrap();
    c.set(6, 0).unwrap();
    c.set(0, 9).unwrap();
    println!("{}", c.to_string());
    assert_eq!(
        c.to_string(),
        "\u{2801}\u{2800}\u{2800}\u{2801}\n\u{2800}\u{2800}\u{2800}\u{2800}\n\u{2802}\u{2800}\u{2800}\u{2802}"
    );
}

#[test]
fn canvas_reset() {
    let mut c = Canvas::with_size(7, 10);
    println!("{} {} {}", c.to_string(), c.columns(), c.rows());

    c.set(0, 0).unwrap();
    c.set(6, 9).unwrap();
    c.set(6, 0).unwrap();
    c.set(0, 9).unwrap();
    println!("{}", c.to_string());

    c.reset(0, 0).unwrap();
    println!("{}", c.to_string());
    assert_eq!(c.data(), &vec![0, 0, 0, 1, 0, 0, 0, 0, 2, 0, 0, 2]);
    c.reset(6, 9).unwrap();
    println!("{}", c.to_string());
    assert_eq!(c.data(), &vec![0, 0, 0, 1, 0, 0, 0, 0, 2, 0, 0, 0]);
    c.reset(6, 0).unwrap();
    println!("{}", c.to_string());
    assert_eq!(c.data(), &vec![0, 0, 0, 0, 0, 0, 0, 0, 2, 0, 0, 0]);
    c.reset(0, 9).unwrap();
    println!("{}", c.to_string());
    assert_eq!(c, Canvas::with_size(7, 10));
}

#[test]
fn canvas_reset_all() {
    let mut c = Canvas::with_size(7, 10);
    println!("{} {} {}", c.to_string(), c.columns(), c.rows());

    c.set(0, 0).unwrap();
    c.set(6, 9).unwrap();
    c.set(6, 0).unwrap();
    c.set(0, 9).unwrap();
    println!("{}", c.to_string());

    c.reset_all();
    println!("{}", c.to_string());
    assert_eq!(c, Canvas::with_size(7, 10));
}

#[test]
fn canvas_flip() {
    let mut c = Canvas::with_size(7, 10);
    println!("{} {} {}", c.to_string(), c.columns(), c.rows());

    c.flip(0, 0).unwrap();
    c.flip(6, 9).unwrap();
    c.flip(6, 0).unwrap();
    c.flip(0, 9).unwrap();
    println!("{}", c.to_string());
    assert_eq!(c.data(), &vec![1, 0, 0, 1, 0, 0, 0, 0, 2, 0, 0, 2]);

    c.flip(0, 0).unwrap();
    c.flip(6, 9).unwrap();
    c.flip(6, 0).unwrap();
    c.flip(0, 9).unwrap();
    println!("{}", c.to_string());
    assert_eq!(c, Canvas::with_size(7, 10));
}

#[test]
fn new_canvas_has_no_cells() {
    let c = Canvas::new();
    assert_eq!(c.width(), 0);
    assert_eq!(c.height(), 0);
    assert_eq!(c.columns(), 0);
    assert_eq!(c.rows(), 0);
    assert!(c.data().is_empty());
    assert_eq!(c.to_string(), "");
    assert_eq!(c, Canvas::with_size(0, 0));
}

#[test]
fn cells_cover_the_points() {
    let sizes: [(usize, usize, usize, usize); 10] = [
        (0, 0, 0, 0),
        (1, 1, 1, 1),
        (2, 4, 1, 1),
        (3, 5, 2, 2),
        (4, 4, 2, 1),
        (3, 6, 2, 2),
        (7, 10, 4, 3),
        (8, 12, 4, 3),
        (9, 13, 5, 4),
        (100, 100, 50, 25),
    ];
    for (width, height, columns, rows) in sizes {
        let c = Canvas::with_size(width, height);
        assert_eq!(c.width(), width);
        assert_eq!(c.height(), height);
        assert_eq!(c.columns(), columns);
        assert_eq!(c.rows(), rows);
        assert_eq!(c.data().len(), columns * rows);
        assert!(c.data().iter().all(|word| *word == 0));
    }
}

#[test]
fn canvas_without_width_or_height_has_no_cells() {
    let mut c = Canvas::with_size(0, 9);
    assert_eq!(c.columns(), 0);
    assert_eq!(c.rows(), 3);
    assert!(c.data().is_empty());
    assert_eq!(c.to_string(), "");
    assert_eq!(c.set(0, 0), Err(IndexError::USizeMatrix(0, 9, 0, 0)));

    let mut c = Canvas::with_size(9, 0);
    assert_eq!(c.columns(), 5);
    assert_eq!(c.rows(), 0);
    assert!(c.data().is_empty());
    assert_eq!(c.to_string(), "");
    assert_eq!(c.flip(0, 0), Err(IndexError::USizeMatrix(9, 0, 0, 0)));
}

#[test]
fn points_resolve_to_cell_and_dot() {
    let mut c = Canvas::with_size(7, 10);
    c.set(0, 0).unwrap();
    assert_eq!(c.data()[0], 1);
    c.set(6, 9).unwrap();
    assert_eq!(c.data()[11], 2);
    assert_eq!(c.data().len(), 12);
    c.set(5, 7).unwrap();
    assert_eq!(c.data()[6], 128);
    c.set(3, 2).unwrap();
    assert_eq!(c.data()[1], 32);
    c.set(2, 11).unwrap();
    assert_eq!(c.data()[9], 64);
}

#[test]
fn every_point_within_the_size_has_its_own_dot() {
    let weights: [[u32; 4]; 2] = [[1, 2, 4, 64], [8, 16, 32, 128]];
    for x in 0..7 {
        for y in 0..10 {
            let mut c = Canvas::with_size(7, 10);
            c.set(x, y).unwrap();
            let mut expected = vec![0u32; 12];
            expected[x / 2 + 4 * (y / 4)] = weights[x % 2][y % 4];
            assert_eq!(c.data(), &expected);
        }
    }
}

#[test]
fn points_below_the_last_row_are_reported() {
    let mut c = Canvas::with_size(7, 10);
    assert_eq!(c.set(0, 12), Err(IndexError::USizeMatrix(7, 10, 0, 12)));
    assert_eq!(c.reset(6, 12), Err(IndexError::USizeMatrix(7, 10, 6, 12)));
    assert_eq!(c.flip(3, 100), Err(IndexError::USizeMatrix(7, 10, 3, 100)));
    assert_eq!(c, Canvas::with_size(7, 10));
}

#[test]
fn points_in_the_last_row_of_cells_are_held() {
    let mut c = Canvas::with_size(7, 10);
    assert!(c.set(0, 10).is_ok());
    assert!(c.set(7, 11).is_ok());
    assert_eq!(c.data(), &vec![0, 0, 0, 0, 0, 0, 0, 0, 4, 0, 0, 128]);
}

#[test]
fn points_right_of_the_width_wrap_into_later_rows() {
    let mut c = Canvas::with_size(3, 8);
    assert_eq!(c.columns(), 2);
    assert_eq!(c.rows(), 2);
    c.set(4, 0).unwrap();
    assert_eq!(c.data(), &vec![0, 0, 1, 0]);
    c.set(7, 1).unwrap();
    assert_eq!(c.data(), &vec![0, 0, 1, 16]);
    assert_eq!(c.set(8, 0), Err(IndexError::USizeMatrix(3, 8, 8, 0)));
    assert_eq!(c.set(4, 4), Err(IndexError::USizeMatrix(3, 8, 4, 4)));
    assert_eq!(c.data(), &vec![0, 0, 1, 16]);
}

#[test]
fn huge_points_are_reported() {
    let mut c = Canvas::with_size(7, 10);
    assert_eq!(
        c.set(usize::MAX, usize::MAX),
        Err(IndexError::USizeMatrix(7, 10, usize::MAX, usize::MAX))
    );
    assert_eq!(c.flip(usize::MAX, 0), Err(IndexError::USizeMatrix(7, 10, usize::MAX, 0)));
    assert_eq!(c.reset(0, usize::MAX), Err(IndexError::USizeMatrix(7, 10, 0, usize::MAX)));
    assert_eq!(c.set(usize::MAX, 8), Err(IndexError::USizeMatrix(7, 10, usize::MAX, 8)));
    assert_eq!(c, Canvas::with_size(7, 10));
}

#[test]
fn operations_on_a_blank_new_canvas_are_reported() {
    let mut c = Canvas::new();
    assert_eq!(c.set(0, 0), Err(IndexError::USizeMatrix(0, 0, 0, 0)));
    assert_eq!(c.reset(1, 2), Err(IndexError::USizeMatrix(0, 0, 1, 2)));
    assert_eq!(c.flip(3, 4), Err(IndexError::USizeMatrix(0, 0, 3, 4)));
    c.reset_all();
    assert_eq!(c, Canvas::new());
}

#[test]
fn set_then_reset_returns_canvas_to_blank() {
    for x in 0..7 {
        for y in 0..10 {
            let mut c = Canvas::with_size(7, 10);
            c.set(x, y).unwrap();
            assert_ne!(c, Canvas::with_size(7, 10));
            c.reset(x, y).unwrap();
            assert_eq!(c, Canvas::with_size(7, 10));
        }
    }
}

#[test]
fn reset_leaves_the_other_dots_of_the_cell() {
    let mut c = Canvas::with_size(2, 4);
    c.set(0, 0).unwrap();
    c.set(1, 1).unwrap();
    c.set(1, 3).unwrap();
    assert_eq!(c.data(), &vec![0b1001_0001]);
    c.reset(1, 1).unwrap();
    assert_eq!(c.data(), &vec![0b1000_0001]);
    c.reset(1, 1).unwrap();
    assert_eq!(c.data(), &vec![0b1000_0001]);
}

#[test]
fn flip_twice_restores_the_canvas() {
    let mut c = Canvas::with_size(5, 5);
    c.set(1, 1).unwrap();
    c.set(4, 4).unwrap();
    let before = c.clone();
    c.flip(1, 1).unwrap();
    assert_ne!(c, before);
    c.flip(1, 1).unwrap();
    assert_eq!(c, before);
    c.flip(3, 2).unwrap();
    c.flip(3, 2).unwrap();
    assert_eq!(c, before);
}

#[test]
fn clone_is_a_canvas_of_its_own() {
    let mut c = Canvas::with_size(4, 8);
    c.set(3, 7).unwrap();
    let d = c.clone();
    assert_eq!(c, d);
    c.reset_all();
    assert_eq!(d.data(), &vec![0, 0, 0, 128]);
    assert_eq!(c.data(), &vec![0, 0, 0, 0]);
}

#[test]
fn blank_canvas_renders_blank_patterns() {
    assert_eq!(Canvas::with_size(2, 4).to_string(), "\u{2800}");
    assert_eq!(Canvas::with_size(1, 1).to_string(), "\u{2800}");
    assert_eq!(Canvas::with_size(3, 5).to_string(), "\u{2800}\u{2800}\n\u{2800}\u{2800}");
    assert_eq!(Canvas::with_size(2, 9).to_string(), "\u{2800}\n\u{2800}\n\u{2800}");
}

#[test]
fn rendering_has_a_line_for_each_row_of_cells() {
    let mut c = Canvas::with_size(7, 10);
    c.set(2, 5).unwrap();
    let text = c.to_string();
    let lines: Vec<&str> = text.split('\n').collect();
    assert_eq!(lines.len(), 3);
    for line in &lines {
        assert_eq!(line.chars().count(), 4);
        assert!(line.chars().all(|ch| ('\u{2800}'..='\u{28FF}').contains(&ch)));
    }
    assert_eq!(lines[1], "\u{2800}\u{2802}\u{2800}\u{2800}");
    assert_eq!(text.trim(), text);
}

#[test]
fn rendering_is_the_trimmed_run_of_cells() {
    let mut c = Canvas::with_size(5, 7);
    c.set(0, 0).unwrap();
    c.set(4, 6).unwrap();
    c.set(3, 3).unwrap();
    let mut raw = String::new();
    for (i, word) in c.data().iter().enumerate() {
        raw.push(char::from_u32(0x2800 | (word & 0xFF)).unwrap());
        if i % c.columns() == c.columns() - 1 {
            raw.push('\n');
        }
    }
    assert_eq!(c.to_string(), raw.trim());
    assert_eq!(c.to_string(), "\u{2801}\u{2880}\u{2800}\n\u{2800}\u{2800}\u{2804}");
}

#[test]
fn golden_rendering_of_the_four_corners() {
    let mut c = Canvas::with_size(7, 10);
    c.set(0, 0).unwrap();
    c.set(6, 9).unwrap();
    c.set(6, 0).unwrap();
    c.set(0, 9).unwrap();
    let expected: [u8; 38] = [
        0xE2, 0xA0, 0x81, 0xE2, 0xA0, 0x80, 0xE2, 0xA0, 0x80, 0xE2, 0xA0, 0x81, 0x0A, 0xE2, 0xA0,
        0x80, 0xE2, 0xA0, 0x80, 0xE2, 0xA0, 0x80, 0xE2, 0xA0, 0x80, 0x0A, 0xE2, 0xA0, 0x82, 0xE2,
        0xA0, 0x80, 0xE2, 0xA0, 0x80, 0xE2, 0xA0, 0x82,
    ];
    assert_eq!(c.to_string().as_bytes(), &expected[..]);
}

#[test]
fn reset_all_clears_every_cell() {
    let mut c = Canvas::with_size(4, 8);
    for x in 0..4 {
        for y in 0..8 {
            c.set(x, y).unwrap();
        }
    }
    assert_eq!(c.data(), &vec![255, 255, 255, 255]);
    assert_eq!(c.to_string(), "\u{28FF}\u{28FF}\n\u{28FF}\u{28FF}");
    c.reset_all();
    assert_eq!(c.data(), &vec![0, 0, 0, 0]);
    assert_eq!(c, Canvas::with_size(4, 8));
}
