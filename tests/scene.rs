use weather_panel::clock::LocalTime;
use weather_panel::color::Color;
use weather_panel::framebuffer::Display;
use weather_panel::render::{draw_bitmap, draw_text};
use weather_panel::scene::{daily_summary, render_scene, IconSet};
use weather_panel::weather::{
    bearing_sector, condition_icon, ConditionIcon, Datablock, Datapoint, Icon, WindDirection,
};

fn empty_point() -> Datapoint {
    Datapoint {
        temperature: None,
        precip_probability: None,
        wind_speed: None,
        wind_bearing: None,
        summary: None,
        icon: None,
        precip_type: None,
    }
}

fn icons() -> IconSet {
    let arrow = |b: u8| vec![b; 200];
    IconSet {
        arrow_north: arrow(0x00),
        arrow_north_east: arrow(0x01),
        arrow_east: arrow(0x02),
        arrow_south_east: arrow(0x03),
        arrow_south: arrow(0x04),
        arrow_south_west: arrow(0x05),
        arrow_west: arrow(0x06),
        arrow_north_west: arrow(0x07),
        clear_day: arrow(0x0F),
        clear_night: arrow(0xF0),
        partly_cloudy_day: arrow(0xAA),
    }
}

fn noon() -> LocalTime {
    LocalTime::new(2020, 2, 1, 12, 34).unwrap()
}

fn canvas() -> Display {
    Display::new(256, 128)
}

fn black_in(d: &Display, xs: std::ops::Range<u32>, ys: std::ops::Range<u32>) -> usize {
    let mut n = 0;
    for x in xs {
        for y in ys.clone() {
            if d.get_pixel(x, y) == Color::Black {
                n += 1;
            }
        }
    }
    n
}

#[test]
fn bearing_sectors() {
    assert_eq!(bearing_sector(0), WindDirection::North);
    assert_eq!(bearing_sector(359), WindDirection::North);
    assert_eq!(bearing_sector(45), WindDirection::NorthEast);
    assert_eq!(bearing_sector(180), WindDirection::South);
    assert_eq!(bearing_sector(270), WindDirection::West);
    assert_eq!(bearing_sector(21), WindDirection::North);
    assert_eq!(bearing_sector(336), WindDirection::NorthWest);
    assert_eq!(bearing_sector(-1), WindDirection::North);
    assert_eq!(bearing_sector(360), WindDirection::North);
}

#[test]
fn bearing_boundaries_open_their_sector() {
    let expected = [
        (22, WindDirection::NorthEast),
        (67, WindDirection::East),
        (112, WindDirection::SouthEast),
        (157, WindDirection::South),
        (202, WindDirection::SouthWest),
        (247, WindDirection::West),
        (292, WindDirection::NorthWest),
        (337, WindDirection::North),
    ];
    for (b, dir) in expected {
        assert_eq!(bearing_sector(b), dir);
    }
}

#[test]
fn condition_icons() {
    assert_eq!(condition_icon(Some(Icon::ClearDay)), Some(ConditionIcon::ClearDay));
    assert_eq!(condition_icon(Some(Icon::ClearNight)), Some(ConditionIcon::ClearNight));
    assert_eq!(condition_icon(Some(Icon::PartlyCloudyDay)), Some(ConditionIcon::PartlyCloudyDay));
    assert_eq!(condition_icon(Some(Icon::Rain)), None);
    assert_eq!(condition_icon(None), None);
}

#[test]
fn bitmap_bits_become_pixels() {
    let mut d = canvas();
    let mut data = vec![0xFFu8; 200];
    data[0] = 0b0111_1111;
    data[5] = 0b1011_1111;
    draw_bitmap(&mut d, &data, 10, 20);
    assert_eq!(d.get_pixel(10, 20), Color::Black);
    assert_eq!(d.get_pixel(11, 20), Color::White);
    assert_eq!(d.get_pixel(11, 21), Color::Black);
    assert_eq!(d.get_pixel(10, 21), Color::White);
    assert_eq!(black_in(&d, 0..256, 0..128), 2);
}

#[test]
fn text_leaves_ink() {
    let mut d = canvas();
    draw_text(&mut d, 14, "12:34", 0, 0);
    assert!(black_in(&d, 0..60, 0..20) > 0);
    assert_eq!(black_in(&d, 100..256, 0..128), 0);
}

#[test]
fn clock_and_date_only_without_conditions() {
    let mut a = canvas();
    render_scene(&mut a, &noon(), &None, &None, &icons());
    let mut b = canvas();
    render_scene(&mut b, &noon(), &Some(empty_point()), &None, &icons());
    assert_eq!(a.payload(), b.payload());
    assert!(black_in(&a, 0..100, 0..60) > 0);
}

#[test]
fn absent_wind_speed_leaves_no_arrow() {
    let mut with_bearing = empty_point();
    with_bearing.wind_bearing = Some(90);
    let mut a = canvas();
    render_scene(&mut a, &noon(), &Some(with_bearing), &None, &icons());
    let mut b = canvas();
    render_scene(&mut b, &noon(), &Some(empty_point()), &None, &icons());
    assert_eq!(a.payload(), b.payload());
}

#[test]
fn wind_draws_arrow_of_its_sector() {
    let mut p = empty_point();
    p.wind_speed = Some(" 5".to_string());
    p.wind_bearing = Some(0);
    let mut d = canvas();
    render_scene(&mut d, &noon(), &Some(p), &None, &icons());
    // the north arrow is all black
    assert_eq!(black_in(&d, 86..126, 44..84), 1600);
}

#[test]
fn condition_icon_drawn_last() {
    let mut p = empty_point();
    p.icon = Some(Icon::ClearDay);
    let mut d = canvas();
    render_scene(&mut d, &noon(), &Some(p), &None, &icons());
    assert_eq!(d.get_pixel(86, 0), Color::Black);
    assert_eq!(d.get_pixel(90, 0), Color::White);
    let mut p = empty_point();
    p.icon = Some(Icon::Fog);
    let mut e = canvas();
    render_scene(&mut e, &noon(), &Some(p), &None, &icons());
    assert_eq!(black_in(&e, 86..126, 0..40), 0);
}

#[test]
fn long_summary_wraps_into_stacked_lines() {
    let text = "Currently: Light rain starting in the afternoon";
    let lines = textwrap::wrap(text, 20);
    assert!(lines.len() >= 3);
    let filled = textwrap::fill(text, 20);
    let split: Vec<&str> = filled.split('\n').collect();
    assert_eq!(split.len(), lines.len());
    let mut p = empty_point();
    p.summary = Some("Light rain starting in the afternoon".to_string());
    let mut d = canvas();
    render_scene(&mut d, &noon(), &Some(p), &None, &icons());
    // one line every 10 pixels from y = 20
    for k in 0..lines.len() as u32 {
        assert!(black_in(&d, 130..256, 20 + 10 * k..30 + 10 * k) > 0);
    }
    let below = 20 + 10 * lines.len() as u32 + 2;
    assert_eq!(black_in(&d, 130..256, below..128), 0);
}

#[test]
fn daily_summary_follows_current_lines() {
    let day = Datapoint { summary: Some("Dry".to_string()), ..empty_point() };
    let block = Datablock { data: Some(vec![day]), icon: None, summary: None };
    assert_eq!(daily_summary(&Some(block)), Some("Dry".to_string()));
    let empty_block = Datablock { data: Some(vec![]), icon: None, summary: None };
    assert_eq!(daily_summary(&Some(empty_block)), None);
    let day = Datapoint { summary: Some("Dry".to_string()), ..empty_point() };
    let block = Datablock { data: Some(vec![day]), icon: None, summary: None };
    let mut d = canvas();
    render_scene(&mut d, &noon(), &Some(empty_point()), &Some(block), &icons());
    // no current summary: the daily one starts on the second line
    assert_eq!(black_in(&d, 130..256, 0..30), 0);
    assert!(black_in(&d, 130..256, 30..41) > 0);
}

#[test]
fn labels_get_their_suffix() {
    let mut p = empty_point();
    p.temperature = Some("71".to_string());
    let mut d = canvas();
    render_scene(&mut d, &noon(), &Some(p), &None, &icons());
    let mut e = canvas();
    draw_text(&mut e, 14, "71\u{b0}", 130, 0);
    let mut f = canvas();
    render_scene(&mut f, &noon(), &Some(empty_point()), &None, &icons());
    assert_ne!(d.payload(), f.payload());
    assert_eq!(black_in(&d, 130..162, 0..20), black_in(&e, 130..162, 0..20));
}

#[test]
fn summary_lines_step_ten_pixels_from_twenty() {
    let text = "Currently: Partly cloudy throughout the day";
    let lines = textwrap::wrap(text, 20);
    assert_eq!(lines, vec!["Currently: Partly", "cloudy throughout", "the day"]);
    let mut p = empty_point();
    p.summary = Some("Partly cloudy throughout the day".to_string());
    let mut d = canvas();
    render_scene(&mut d, &noon(), &Some(p), &None, &icons());
    let mut e = canvas();
    draw_text(&mut e, 24, "12:34", 0, 20);
    draw_text(&mut e, 14, "01/02/20", 0, 0);
    draw_text(&mut e, 9, "Currently: Partly", 130, 20);
    draw_text(&mut e, 9, "cloudy throughout", 130, 30);
    draw_text(&mut e, 9, "the day", 130, 40);
    assert_eq!(d.payload(), e.payload());
}

#[test]
fn daily_lines_continue_below_current_ones() {
    let mut p = empty_point();
    p.summary = Some("Partly cloudy throughout the day".to_string());
    let day = Datapoint { summary: Some("Dry".to_string()), ..empty_point() };
    let block = Datablock { data: Some(vec![day]), icon: None, summary: None };
    let mut d = canvas();
    render_scene(&mut d, &noon(), &Some(p), &Some(block), &icons());
    let mut e = canvas();
    draw_text(&mut e, 24, "12:34", 0, 20);
    draw_text(&mut e, 14, "01/02/20", 0, 0);
    draw_text(&mut e, 9, "Currently: Partly", 130, 20);
    draw_text(&mut e, 9, "cloudy throughout", 130, 30);
    draw_text(&mut e, 9, "the day", 130, 40);
    draw_text(&mut e, 9, "Today: Dry", 130, 50);
    assert_eq!(d.payload(), e.payload());
}

#[test]
fn overlong_text_draws_nothing() {
    let mut d = canvas();
    let long = "x".repeat(0x100_0001);
    draw_text(&mut d, 9, &long, 0, 0);
    assert!(d.payload().iter().all(|b| *b == 0xFF));
}
