use pixfuck::sort::brightness::brightness;
use pixfuck::sort::hue::hue;
use pixfuck::sort::lightness::lightness;
use pixfuck::sort::saturation::saturation;
use pixfuck::sort::{metric, sort_row_at};
use pixfuck::{sort_pixels, sort_row, Image, Rgb, SortKey, SortMode};

const MODES: [SortMode; 4] = [
    SortMode::Hue,
    SortMode::Saturation,
    SortMode::Lightness,
    SortMode::Brightness,
];

fn px(r: u8, g: u8, b: u8) -> Rgb {
    Rgb::new(r, g, b)
}

fn image_of(rows: Vec<Vec<Rgb>>) -> Image {
    let width = rows.first().map(|r| r.len()).unwrap_or(0) as u32;
    Image::from_rows(width, rows).expect("rows of equal length")
}

fn key_value(k: SortKey) -> f64 {
    k.num as f64 / k.den as f64
}

fn sorted_copy(row: &[Rgb]) -> Vec<(u8, u8, u8)> {
    let mut v: Vec<(u8, u8, u8)> = row.iter().map(|p| (p.r, p.g, p.b)).collect();
    v.sort();
    v
}

fn sample_row() -> Vec<Rgb> {
    let mut row = Vec::new();
    let mut state: u32 = 12345;
    for _ in 0..97 {
        state = state.wrapping_mul(1103515245).wrapping_add(12345);
        let r = (state >> 16) as u8;
        state = state.wrapping_mul(1103515245).wrapping_add(12345);
        let g = (state >> 16) as u8;
        state = state.wrapping_mul(1103515245).wrapping_add(12345);
        let b = (state >> 16) as u8;
        row.push(px(r, g, b));
    }
    row.push(px(10, 10, 10));
    row.push(px(10, 10, 10));
    row.push(px(200, 0, 0));
    row
}

#[test]
fn brightness_orders_primaries() {
    let img = image_of(vec![vec![px(255, 0, 0), px(0, 255, 0), px(0, 0, 255)]]);
    let out = sort_pixels(img, SortMode::Brightness);
    assert_eq!(out.rows, vec![vec![px(0, 0, 255), px(255, 0, 0), px(0, 255, 0)]]);
}

#[test]
fn brightness_module_sort_matches_engine() {
    let img = image_of(vec![vec![px(255, 0, 0), px(0, 255, 0), px(0, 0, 255)]]);
    let out = pixfuck::sort::brightness::sort(img);
    assert_eq!(out.rows, vec![vec![px(0, 0, 255), px(255, 0, 0), px(0, 255, 0)]]);
}

#[test]
fn uniform_gray_is_unchanged_in_every_mode() {
    let gray = px(128, 128, 128);
    for mode in MODES {
        let img = image_of(vec![vec![gray, gray], vec![gray, gray]]);
        let out = sort_pixels(img, mode);
        assert_eq!(out.dimensions(), (2, 2));
        assert_eq!(out.rows, vec![vec![gray, gray], vec![gray, gray]]);
    }
}

#[test]
fn hue_puts_red_before_cyan() {
    let red = px(255, 0, 0);
    let cyan = px(0, 255, 255);
    let out = sort_pixels(image_of(vec![vec![red, cyan]]), SortMode::Hue);
    assert_eq!(out.rows, vec![vec![red, cyan]]);
    let out = pixfuck::sort::hue::sort(image_of(vec![vec![cyan, red]]));
    assert_eq!(out.rows, vec![vec![red, cyan]]);
}

#[test]
fn empty_images_come_back_unchanged() {
    for mode in MODES {
        let out = sort_pixels(Image::new(0, 0), mode);
        assert_eq!(out.dimensions(), (0, 0));
        assert!(out.rows.is_empty());

        let out = sort_pixels(Image::new(0, 3), mode);
        assert_eq!(out.dimensions(), (0, 3));
        assert_eq!(out.rows, vec![Vec::<Rgb>::new(); 3]);

        let out = sort_pixels(Image::new(4, 0), mode);
        assert_eq!(out.dimensions(), (4, 0));
        assert!(out.rows.is_empty());
    }
}

#[test]
fn mode_choice_out_of_range_names_no_mode() {
    assert_eq!(SortMode::parse("0"), Some(SortMode::Hue));
    assert_eq!(SortMode::parse("1"), Some(SortMode::Saturation));
    assert_eq!(SortMode::parse("2"), Some(SortMode::Lightness));
    assert_eq!(SortMode::parse("3"), Some(SortMode::Brightness));
    assert_eq!(SortMode::parse("4"), None);
    assert_eq!(SortMode::parse("-1"), None);
    assert_eq!(SortMode::parse("00"), None);
    assert_eq!(SortMode::parse(""), None);
    assert_eq!(SortMode::parse("hue"), None);
    assert_eq!(SortMode::default(), SortMode::Hue);
}

#[test]
fn brightness_values_are_luma() {
    assert_eq!(brightness(&px(255, 0, 0)), SortKey { num: 76245, den: 1000 });
    assert_eq!(brightness(&px(0, 255, 0)), SortKey { num: 149685, den: 1000 });
    assert_eq!(brightness(&px(0, 0, 255)), SortKey { num: 29070, den: 1000 });
    assert_eq!(brightness(&px(255, 255, 255)), SortKey { num: 255000, den: 1000 });
    assert!((key_value(brightness(&px(10, 20, 30))) - 18.15).abs() < 1e-9);
}

#[test]
fn hue_values_in_degrees() {
    assert_eq!(key_value(hue(&px(255, 0, 0))), 0.0);
    assert_eq!(key_value(hue(&px(255, 255, 0))), 60.0);
    assert_eq!(key_value(hue(&px(0, 255, 0))), 120.0);
    assert_eq!(key_value(hue(&px(0, 255, 255))), 180.0);
    assert_eq!(key_value(hue(&px(0, 0, 255))), 240.0);
    assert_eq!(key_value(hue(&px(255, 0, 255))), 300.0);
    assert_eq!(key_value(hue(&px(255, 0, 1))), 60.0 * (6.0 - 1.0 / 255.0));
    assert_eq!(hue(&px(77, 77, 77)), SortKey { num: 0, den: 1 });
    assert_eq!(hue(&px(0, 0, 0)), SortKey { num: 0, den: 1 });
}

#[test]
fn saturation_values() {
    assert_eq!(key_value(saturation(&px(255, 0, 0))), 1.0);
    assert_eq!(saturation(&px(100, 100, 100)), SortKey { num: 0, den: 1 });
    // max 200, min 100: lightness above one half, so 100 / (510 - 300)
    assert_eq!(saturation(&px(200, 100, 150)), SortKey { num: 100, den: 210 });
    // max 100, min 50: 50 / 150
    assert_eq!(saturation(&px(50, 100, 75)), SortKey { num: 50, den: 150 });
}

#[test]
fn lightness_values() {
    assert_eq!(lightness(&px(255, 0, 0)), SortKey { num: 255, den: 510 });
    assert_eq!(key_value(lightness(&px(255, 255, 255))), 1.0);
    assert_eq!(key_value(lightness(&px(0, 0, 0))), 0.0);
    assert_eq!(lightness(&px(10, 200, 30)), SortKey { num: 210, den: 510 });
}

#[test]
fn metric_dispatches_by_mode() {
    let p = px(12, 200, 99);
    assert_eq!(metric(&p, SortMode::Hue), hue(&p));
    assert_eq!(metric(&p, SortMode::Saturation), saturation(&p));
    assert_eq!(metric(&p, SortMode::Lightness), lightness(&p));
    assert_eq!(metric(&p, SortMode::Brightness), brightness(&p));
}

#[test]
fn metric_is_deterministic() {
    let p = px(31, 41, 59);
    for mode in MODES {
        assert_eq!(metric(&p, mode), metric(&p, mode));
    }
}

#[test]
fn key_comparison_is_exact() {
    let third = SortKey { num: 1, den: 3 };
    let also_third = SortKey { num: 170, den: 510 };
    let half = SortKey { num: 1, den: 2 };
    assert!(third.le(&also_third) && also_third.le(&third));
    assert!(third.le(&half));
    assert!(!half.le(&third));
}

#[test]
fn sorted_rows_keep_their_pixels_and_order() {
    for mode in MODES {
        let original = sample_row();
        let mut row = original.clone();
        sort_row(&mut row, mode);
        assert_eq!(row.len(), original.len());
        assert_eq!(sorted_copy(&row), sorted_copy(&original));
        for i in 0..row.len() - 1 {
            let a = metric(&row[i], mode);
            let b = metric(&row[i + 1], mode);
            assert!(a.le(&b), "mode {:?} position {}", mode, i);
        }
    }
}

#[test]
fn sorting_twice_equals_sorting_once() {
    for mode in MODES {
        let img = image_of(vec![sample_row(), sample_row().into_iter().rev().collect()]);
        let once = sort_pixels(img, mode);
        let twice = sort_pixels(Image::from_rows(once.width, once.rows.clone()).unwrap(), mode);
        assert_eq!(twice.rows, once.rows);
    }
}

#[test]
fn sorting_one_row_leaves_the_others() {
    let row0 = vec![px(9, 9, 9), px(1, 1, 1)];
    let row1 = vec![px(255, 255, 255), px(0, 0, 0)];
    let row2 = vec![px(5, 5, 5), px(4, 4, 4)];
    let mut rows = vec![row0.clone(), row1, row2.clone()];
    sort_row_at(&mut rows, 1, SortMode::Lightness);
    assert_eq!(rows[0], row0);
    assert_eq!(rows[1], vec![px(0, 0, 0), px(255, 255, 255)]);
    assert_eq!(rows[2], row2);
}

#[test]
fn image_rows_are_sorted_independently() {
    let img = image_of(vec![
        vec![px(0, 255, 0), px(0, 0, 255)],
        vec![px(0, 0, 255), px(0, 255, 0)],
    ]);
    let out = sort_pixels(img, SortMode::Brightness);
    assert_eq!(out.rows[0], vec![px(0, 0, 255), px(0, 255, 0)]);
    assert_eq!(out.rows[1], vec![px(0, 0, 255), px(0, 255, 0)]);
}

#[test]
fn saturation_and_lightness_sorts() {
    let vivid = px(255, 0, 0);
    let dull = px(120, 100, 100);
    let gray = px(90, 90, 90);
    let out = pixfuck::sort::saturation::sort(image_of(vec![vec![vivid, gray, dull]]));
    assert_eq!(out.rows, vec![vec![gray, dull, vivid]]);

    let out = pixfuck::sort::lightness::sort(image_of(vec![vec![px(250, 250, 250), px(0, 0, 0), vivid]]));
    assert_eq!(out.rows, vec![vec![px(0, 0, 0), vivid, px(250, 250, 250)]]);
}

#[test]
fn from_rows_checks_row_lengths() {
    assert!(Image::from_rows(2, vec![vec![px(1, 2, 3)]]).is_none());
    assert!(Image::from_rows(1, vec![vec![px(1, 2, 3)], vec![]]).is_none());
    let img = Image::from_rows(1, vec![vec![px(1, 2, 3)], vec![px(4, 5, 6)]]).unwrap();
    assert_eq!(img.dimensions(), (1, 2));
    assert_eq!(img.get_pixel(0, 1), px(4, 5, 6));
}

#[test]
fn new_and_put_pixel() {
    let mut img = Image::new(3, 2);
    assert_eq!(img.get_pixel(2, 1), px(0, 0, 0));
    img.put_pixel(2, 1, px(7, 8, 9));
    assert_eq!(img.get_pixel(2, 1), px(7, 8, 9));
    assert_eq!(img.rows[0], vec![px(0, 0, 0); 3]);
    assert_eq!(img.rows[1], vec![px(0, 0, 0), px(0, 0, 0), px(7, 8, 9)]);
}
