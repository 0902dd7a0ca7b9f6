use ray_tracer::color_image::{ColorImage, Rgb8, Row};

fn shade(v: u8) -> Rgb8 {
    Rgb8 { r: v, g: v.wrapping_add(1), b: v.wrapping_add(2) }
}

fn row(y: u32, width: u32, seed: u8) -> Row {
    Row { y, pixels: (0..width).map(|x| shade(seed.wrapping_add(3 * x as u8))).collect() }
}

#[test]
fn a_new_image_is_black() {
    let image = ColorImage::new(4, 3);
    assert_eq!(image.width, 4);
    assert_eq!(image.height, 3);
    assert_eq!(image.pixels, vec![Rgb8 { r: 0, g: 0, b: 0 }; 12]);
    assert_eq!(Rgb8::black(), Rgb8 { r: 0, g: 0, b: 0 });
    assert_eq!(ColorImage::new(0, 5).pixels, vec![]);
    assert_eq!(ColorImage::new(5, 0).pixels, vec![]);
}

#[test]
fn pixels_are_stored_row_by_row() {
    let mut image = ColorImage::new(4, 3);
    image.set(1, 2, shade(7));
    assert_eq!(image.get(1, 2), shade(7));
    assert_eq!(image.pixels[2 * 4 + 1], shade(7));
    assert_eq!(image.get(2, 1), Rgb8::black());
    image.set(3, 0, shade(9));
    assert_eq!(image.pixels[3], shade(9));
    assert_eq!(image.get(1, 2), shade(7));
    assert_eq!(image.pixels.iter().filter(|p| **p != Rgb8::black()).count(), 2);
}

#[test]
fn a_row_is_written_to_its_place() {
    let mut image = ColorImage::new(3, 4);
    let r = row(2, 3, 10);
    image.store_row(&r);
    for x in 0..3 {
        assert_eq!(image.get(x, 2), r.pixels[x as usize]);
        assert_eq!(image.get(x, 0), Rgb8::black());
        assert_eq!(image.get(x, 1), Rgb8::black());
        assert_eq!(image.get(x, 3), Rgb8::black());
    }
    assert_eq!(&image.pixels[6..9], &r.pixels[..]);
}

#[test]
fn the_order_in_which_rows_arrive_does_not_matter() {
    let in_order: Vec<Row> = (0..5).map(|y| row(y, 4, 20 * y as u8)).collect();
    let shuffled: Vec<Row> = [3u32, 0, 4, 1, 2].iter().map(|y| row(*y, 4, 20 * *y as u8)).collect();
    let backwards: Vec<Row> = (0..5).rev().map(|y| row(y, 4, 20 * y as u8)).collect();
    let a = ColorImage::assemble(4, 5, &in_order);
    let b = ColorImage::assemble(4, 5, &shuffled);
    let c = ColorImage::assemble(4, 5, &backwards);
    assert_eq!(a.pixels, b.pixels);
    assert_eq!(a.pixels, c.pixels);
    for y in 0..5u32 {
        for x in 0..4u32 {
            assert_eq!(a.get(x, y), in_order[y as usize].pixels[x as usize]);
        }
    }
}

#[test]
fn rows_that_never_arrive_stay_black() {
    let rows = vec![row(1, 2, 50)];
    let image = ColorImage::assemble(2, 3, &rows);
    assert_eq!(image.pixels, vec![
        Rgb8::black(),
        Rgb8::black(),
        shade(50),
        shade(53),
        Rgb8::black(),
        Rgb8::black(),
    ]);
    assert_eq!(ColorImage::assemble(2, 3, &vec![]).pixels, vec![Rgb8::black(); 6]);
}

#[test]
fn a_row_that_arrives_twice_counts_the_second_time() {
    let rows = vec![row(0, 2, 1), row(0, 2, 100)];
    let image = ColorImage::assemble(2, 1, &rows);
    assert_eq!(image.pixels, vec![shade(100), shade(103)]);
}

#[test]
fn the_image_buffer_holds_the_image() {
    let rows: Vec<Row> = (0..3).map(|y| row(y, 2, 40 * y as u8)).collect();
    let image = ColorImage::assemble(2, 3, &rows);
    let buffer = image.to_image_buffer().unwrap().inner;
    assert_eq!(buffer.width(), 2);
    assert_eq!(buffer.height(), 3);
    for y in 0..3u32 {
        for x in 0..2u32 {
            let p = image.get(x, y);
            assert_eq!(buffer.get_pixel(x, y).0, [p.r, p.g, p.b]);
        }
    }
    assert_eq!(buffer.get_pixel(1, 2).0, [83, 84, 85]);
    assert_eq!(buffer.as_raw().len(), 18);
    assert_eq!(&buffer.as_raw()[0..6], &[0u8, 1, 2, 3, 4, 5][..]);
}

#[test]
fn an_empty_image_gives_an_empty_buffer() {
    let buffer = ColorImage::new(0, 0).to_image_buffer().unwrap().inner;
    assert_eq!(buffer.width(), 0);
    assert_eq!(buffer.height(), 0);
    let buffer = ColorImage::new(7, 0).to_image_buffer().unwrap().inner;
    assert_eq!((buffer.width(), buffer.height()), (7, 0));
    assert_eq!(buffer.as_raw().len(), 0);
}
