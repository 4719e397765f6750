use renderer::image::{Color, Image};

const HOT_PINK: [u8; 4] = [255, 105, 180, 255];

fn numbered(image: &mut Image) {
    let mut next: u8 = 0;
    image.pixels(|_x: usize, _y: usize, cell: &mut Color| {
        *cell = Color::new(next, next + 100, next + 200, 255);
        next += 1;
    });
}

#[test]
fn color_new_keeps_each_channel() {
    let color = Color::new(1, 2, 3, 4);
    assert_eq!(color.red, 1);
    assert_eq!(color.green, 2);
    assert_eq!(color.blue, 3);
    assert_eq!(color.alpha, 4);
}

#[test]
fn color_default_is_opaque_hot_pink() {
    assert_eq!(Color::default(), Color::new(255, 105, 180, 255));
}

#[test]
fn new_image_has_its_dimensions() {
    let image = Image::new(7, 3);
    assert_eq!(image.width(), 7);
    assert_eq!(image.height(), 3);
}

#[test]
fn new_image_is_unset_everywhere() {
    let image = Image::new(3, 2);
    for y in 0..2usize {
        for x in 0..3usize {
            assert_eq!(image.get(x, y), Some(Color::default()));
        }
    }
    let bytes = image.export_bytes();
    assert_eq!(bytes.len(), 24);
    for cell in bytes.chunks(4) {
        assert_eq!(cell, &HOT_PINK[..]);
    }
}

#[test]
fn image_without_columns_or_rows_is_empty() {
    let flat = Image::new(5, 0);
    assert_eq!(flat.width(), 5);
    assert_eq!(flat.height(), 0);
    assert!(flat.export_bytes().is_empty());
    assert_eq!(flat.get(0, 0), None);

    let thin = Image::new(0, 5);
    assert_eq!(thin.width(), 0);
    assert_eq!(thin.height(), 5);
    assert!(thin.export_bytes().is_empty());
    assert_eq!(thin.get(0, 0), None);
}

#[test]
fn set_writes_the_cell_and_no_other() {
    let mut image = Image::new(3, 2);
    let teal = Color::new(0, 128, 128, 255);
    image.set(1, 1, teal);
    for y in 0..2usize {
        for x in 0..3usize {
            let expected = if (x, y) == (1, 1) { teal } else { Color::default() };
            assert_eq!(image.get(x, y), Some(expected));
        }
    }
}

#[test]
fn set_counts_rows_from_the_top() {
    let mut image = Image::new(3, 2);
    image.set(2, 0, Color::new(9, 8, 7, 6));
    let bytes = image.export_bytes();
    assert_eq!(&bytes[8..12], &[9, 8, 7, 6]);
    assert_eq!(&bytes[..8], &[255, 105, 180, 255, 255, 105, 180, 255]);
}

#[test]
fn set_overwrites_an_earlier_write() {
    let mut image = Image::new(2, 2);
    image.set(0, 1, Color::new(1, 1, 1, 1));
    image.set(0, 1, Color::new(2, 2, 2, 2));
    assert_eq!(image.get(0, 1), Some(Color::new(2, 2, 2, 2)));
}

#[test]
fn set_reaches_the_last_cell_of_each_row() {
    let mut image = Image::new(2, 2);
    image.set(1, 0, Color::new(1, 2, 3, 4));
    image.set(1, 1, Color::new(5, 6, 7, 8));
    assert_eq!(image.get(0, 0), Some(Color::default()));
    assert_eq!(image.get(1, 0), Some(Color::new(1, 2, 3, 4)));
    assert_eq!(image.get(0, 1), Some(Color::default()));
    assert_eq!(image.get(1, 1), Some(Color::new(5, 6, 7, 8)));
}

#[test]
fn get_outside_the_image_is_none() {
    let image = Image::new(3, 2);
    assert_eq!(image.get(3, 0), None);
    assert_eq!(image.get(0, 2), None);
    assert_eq!(image.get(usize::MAX, 0), None);
    assert_eq!(image.get(2, 1), Some(Color::default()));
}

#[test]
fn pixels_visits_row_after_row_with_scanlines_counted_upwards() {
    let mut image = Image::new(3, 2);
    let mut seen: Vec<(usize, usize)> = Vec::new();
    image.pixels(|x: usize, y: usize, _cell: &mut Color| seen.push((x, y)));
    assert_eq!(seen, vec![(0, 2), (1, 2), (2, 2), (0, 1), (1, 1), (2, 1)]);
}

#[test]
fn pixels_visits_a_single_column_from_the_top() {
    let mut image = Image::new(1, 4);
    let mut seen: Vec<(usize, usize)> = Vec::new();
    image.pixels(|x: usize, y: usize, _cell: &mut Color| seen.push((x, y)));
    assert_eq!(seen, vec![(0, 4), (0, 3), (0, 2), (0, 1)]);
}

#[test]
fn pixels_hands_out_what_each_cell_holds() {
    let mut image = Image::new(2, 2);
    image.set(1, 0, Color::new(10, 20, 30, 40));
    let mut seen: Vec<Color> = Vec::new();
    image.pixels(|_x: usize, _y: usize, cell: &mut Color| seen.push(*cell));
    assert_eq!(
        seen,
        vec![Color::default(), Color::new(10, 20, 30, 40), Color::default(), Color::default()]
    );
}

#[test]
fn pixels_keeps_what_the_visitor_wrote() {
    let mut image = Image::new(3, 2);
    image.pixels(|x: usize, y: usize, cell: &mut Color| {
        *cell = Color::new(x as u8, y as u8, 0, 255);
    });
    assert_eq!(
        image.export_bytes(),
        vec![
            0, 2, 0, 255, 1, 2, 0, 255, 2, 2, 0, 255, //
            0, 1, 0, 255, 1, 1, 0, 255, 2, 1, 0, 255,
        ]
    );
}

#[test]
fn pixels_leaves_untouched_cells_alone() {
    let mut image = Image::new(2, 2);
    image.pixels(|x: usize, y: usize, cell: &mut Color| {
        if x == 1 && y == 2 {
            *cell = Color::new(0, 0, 0, 0);
        }
    });
    assert_eq!(image.get(0, 0), Some(Color::default()));
    assert_eq!(image.get(1, 0), Some(Color::new(0, 0, 0, 0)));
    assert_eq!(image.get(0, 1), Some(Color::default()));
    assert_eq!(image.get(1, 1), Some(Color::default()));
}

#[test]
fn scanline_of_a_cell_is_the_height_less_its_row() {
    let mut image = Image::new(4, 3);
    let mut seen: Vec<(usize, usize)> = Vec::new();
    image.pixels(|x: usize, y: usize, cell: &mut Color| {
        *cell = Color::new(x as u8, y as u8, 7, 255);
        seen.push((x, y));
    });
    assert_eq!(seen.len(), 12);
    for (x, y) in seen {
        assert!(1 <= y && y <= 3);
        assert_eq!(image.get(x, 3 - y), Some(Color::new(x as u8, y as u8, 7, 255)));
    }
}

#[test]
fn pixels_of_an_empty_image_calls_nothing() {
    let mut calls: usize = 0;
    Image::new(0, 3).pixels(|_x: usize, _y: usize, _cell: &mut Color| calls += 1);
    Image::new(3, 0).pixels(|_x: usize, _y: usize, _cell: &mut Color| calls += 1);
    Image::new(0, 0).pixels(|_x: usize, _y: usize, _cell: &mut Color| calls += 1);
    assert_eq!(calls, 0);
}

#[test]
fn export_lays_out_red_green_blue_alpha_row_by_row() {
    let mut image = Image::new(2, 2);
    image.set(0, 0, Color::new(1, 2, 3, 4));
    image.set(1, 0, Color::new(5, 6, 7, 8));
    image.set(0, 1, Color::new(9, 10, 11, 12));
    image.set(1, 1, Color::new(13, 14, 15, 16));
    assert_eq!(
        image.export_bytes(),
        vec![1, 2, 3, 4, 5, 6, 7, 8, 9, 10, 11, 12, 13, 14, 15, 16]
    );
}

#[test]
fn export_has_four_bytes_for_each_cell() {
    assert_eq!(Image::new(1, 1).export_bytes().len(), 4);
    assert_eq!(Image::new(5, 3).export_bytes().len(), 60);
    assert_eq!(Image::new(16, 9).export_bytes().len(), 576);
}

#[test]
fn export_finds_each_cell_at_four_times_its_place() {
    let mut image = Image::new(3, 2);
    numbered(&mut image);
    let bytes = image.export_bytes();
    for y in 0..2usize {
        for x in 0..3usize {
            let color = image.get(x, y).expect("the place lies in the image");
            let at = 4 * (y * 3 + x);
            assert_eq!(&bytes[at..at + 4], &[color.red, color.green, color.blue, color.alpha]);
        }
    }
}

#[test]
fn filled_image_shows_no_unset_cell() {
    let mut image = Image::new(8, 5);
    image.pixels(|_x: usize, _y: usize, cell: &mut Color| *cell = Color::new(0, 0, 0, 255));
    assert!(image.export_bytes().chunks(4).all(|cell| cell != &HOT_PINK[..]));
}
