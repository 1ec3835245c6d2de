use slack_tui::binary64::Number;
use slack_tui::frame::{Cell, Frame, Rect};
use slack_tui::style::{Color, Style};
use slack_tui::widgets::Scrollbar;

#[test]
fn it_caps_range_to_total() {
    let mut scrollbar = Scrollbar::default();

    assert_eq!(scrollbar.total(), 0);
    assert_eq!(scrollbar.shown_range(), 0..0);

    scrollbar.set_total(100).set_shown_range(10..60);

    assert_eq!(scrollbar.total(), 100);
    assert_eq!(scrollbar.shown_range(), 10..60);

    scrollbar.set_total(50);

    assert_eq!(scrollbar.total(), 50);
    assert_eq!(scrollbar.shown_range(), 0..50);

    scrollbar.set_total(10);

    assert_eq!(scrollbar.total(), 10);
    assert_eq!(scrollbar.shown_range(), 0..10);

    scrollbar
        .set_total(100)
        .set_shown_range(50..90)
        .set_total(90);

    assert_eq!(scrollbar.total(), 90);
    assert_eq!(scrollbar.shown_range(), 50..90);
}

#[test]
fn it_allows_ranges_up_until_total() {
    let mut scrollbar = Scrollbar::default();
    scrollbar.set_total(10).set_shown_range(5..10);
    assert_eq!(scrollbar.total(), 10);
    assert_eq!(scrollbar.shown_range(), 5..10);
}

#[test]
fn it_calculates_heights() {
    let mut scrollbar = Scrollbar::default();

    scrollbar.set_total(100).set_shown_range(50..80);

    assert_eq!(scrollbar.above_height(100), 50);
    assert_eq!(scrollbar.shown_height(100), 30);
    assert_eq!(scrollbar.below_height(100), 20);

    assert_eq!(scrollbar.above_height(50), 25);
    assert_eq!(scrollbar.shown_height(50), 15);
    assert_eq!(scrollbar.below_height(50), 10);

    for height in 3..500 {
        assert_eq!(
            scrollbar.above_height(height)
                + scrollbar.shown_height(height)
                + scrollbar.below_height(height),
            height,
            "Heights do not add up to {}",
            height
        );
    }
}

#[test]
fn it_counts_items_shown() {
    let mut scrollbar = Scrollbar::default();
    scrollbar.set_total(100);

    scrollbar.set_shown_range(0..100);
    assert_eq!(scrollbar.items_shown(), 100);
    scrollbar.set_shown_range(0..50);
    assert_eq!(scrollbar.items_shown(), 50);
    scrollbar.set_shown_range(50..100);
    assert_eq!(scrollbar.items_shown(), 50);
    scrollbar.set_total(10).set_shown_range(1..4);
    assert_eq!(scrollbar.items_shown(), 3);
    scrollbar.set_shown_range(5..10);
    assert_eq!(scrollbar.items_shown(), 5);
    scrollbar.set_shown_range(5..5);
    assert_eq!(scrollbar.items_shown(), 0);
}

#[test]
fn bands_add_up_for_every_range() {
    for total in 1..40usize {
        for start in 0..=total {
            for end in start..=total {
                let mut scrollbar = Scrollbar::default();
                scrollbar.set_total(total).set_shown_range(start..end);
                for height in [0u16, 1, 2, 3, 7, 10, 99, 500, u16::MAX] {
                    let above = scrollbar.above_height(height);
                    let shown = scrollbar.shown_height(height);
                    let below = scrollbar.below_height(height);
                    assert_eq!(
                        above as u32 + shown as u32 + below as u32,
                        height as u32
                    );
                }
            }
        }
    }
}

#[test]
fn bands_round_down() {
    let mut scrollbar = Scrollbar::default();
    scrollbar.set_total(3).set_shown_range(1..2);
    assert_eq!(scrollbar.above_height(10), 3);
    assert_eq!(scrollbar.below_height(10), 3);
    assert_eq!(scrollbar.shown_height(10), 4);
    scrollbar.set_total(398).set_shown_range(377..398);
    assert_eq!(scrollbar.above_height(100), 94);
    assert_eq!(scrollbar.below_height(100), 0);
    assert_eq!(scrollbar.shown_height(100), 6);
    // Four fifths shown leave a little less than a fifth, for the rounding.
    scrollbar.set_total(5).set_shown_range(0..4);
    assert_eq!(scrollbar.above_height(10), 0);
    assert_eq!(scrollbar.below_height(10), 1);
    assert_eq!(scrollbar.shown_height(10), 9);
    // Seven tenths of 90 rows are a little less than 63.
    scrollbar.set_total(10).set_shown_range(7..10);
    assert_eq!(scrollbar.above_height(90), 62);
}

fn value(number: Number) -> f64 {
    number.mantissa as f64 * (2.0f64).powi(number.exponent as i32)
}

fn ratios(total: usize, start: usize, end: usize) -> (f64, f64, f64) {
    let above = start as f64 / total as f64;
    let shown = (end - start) as f64 / total as f64;
    let below = (1.0 - above - shown).max(0.0);
    (above, shown, below)
}

#[test]
fn it_calculates_ratios() {
    let mut scrollbar = Scrollbar::default();
    scrollbar.set_total(100);

    scrollbar.set_shown_range(0..100);
    assert_eq!(scrollbar.items_shown(), 100);
    assert_eq!(value(scrollbar.ratio_above()), 0.0);
    assert_eq!(value(scrollbar.ratio_shown()), 1.0);
    assert_eq!(value(scrollbar.ratio_below()), 0.0);

    scrollbar.set_shown_range(0..50);
    assert_eq!(scrollbar.items_shown(), 50);
    assert_eq!(value(scrollbar.ratio_above()), 0.0);
    assert_eq!(value(scrollbar.ratio_shown()), 0.5);
    assert_eq!(value(scrollbar.ratio_below()), 0.5);

    scrollbar.set_shown_range(50..100);
    assert_eq!(scrollbar.items_shown(), 50);
    assert_eq!(value(scrollbar.ratio_above()), 0.5);
    assert_eq!(value(scrollbar.ratio_shown()), 0.5);
    assert_eq!(value(scrollbar.ratio_below()), 0.0);

    scrollbar.set_total(10).set_shown_range(1..4); // 10 items (0,1,2,3,4,5,6,7,8,9), 1+2+3 are shown.
    assert_eq!(scrollbar.items_shown(), 3);
    assert_eq!((value(scrollbar.ratio_above()) * 100.0).round(), 10.0); // 1 item above (10%)
    assert_eq!((value(scrollbar.ratio_shown()) * 100.0).round(), 30.0); // 3 items shown (30%)
    assert_eq!((value(scrollbar.ratio_below()) * 100.0).round(), 60.0); // 6 items shown (60%)

    scrollbar.set_shown_range(5..10);
    assert_eq!(scrollbar.items_shown(), 5);
}

#[test]
fn it_deals_with_float_rounding_errors() {
    let mut scrollbar = Scrollbar::default();
    scrollbar.set_total(398).set_shown_range(377..398);

    assert!(
        value(scrollbar.ratio_above()) >= 0.0,
        "Ratio above was negative: {}",
        value(scrollbar.ratio_above())
    );
    assert!(
        value(scrollbar.ratio_shown()) >= 0.0,
        "Ratio shown was negative: {}",
        value(scrollbar.ratio_shown())
    );
    assert!(
        value(scrollbar.ratio_below()) >= 0.0,
        "Ratio below was negative: {}",
        value(scrollbar.ratio_below())
    );
}

#[test]
fn shares_are_the_numbers_of_the_processor() {
    for total in 1..60usize {
        for start in 0..=total {
            for end in start..=total {
                let mut scrollbar = Scrollbar::default();
                scrollbar.set_total(total).set_shown_range(start..end);
                let (above, shown, below) = ratios(total, start, end);
                assert_eq!(value(scrollbar.ratio_above()), above);
                assert_eq!(value(scrollbar.ratio_shown()), shown);
                assert_eq!(value(scrollbar.ratio_below()), below);
                for height in [0u16, 1, 2, 3, 5, 7, 10, 24, 49, 50, 90, 100, 255, 500, u16::MAX] {
                    assert_eq!(
                        scrollbar.above_height(height),
                        (height as f64 * above).floor() as u16,
                        "above of {} for {}..{} of {}",
                        height,
                        start,
                        end,
                        total
                    );
                    assert_eq!(
                        scrollbar.below_height(height),
                        (height as f64 * below).floor() as u16,
                        "below of {} for {}..{} of {}",
                        height,
                        start,
                        end,
                        total
                    );
                }
            }
        }
    }
}

#[test]
fn shares_of_large_counts_are_rounded_like_the_numbers_of_the_processor() {
    let counts = [
        1usize,
        3,
        1 << 20,
        (1 << 53) - 1,
        1 << 53,
        (1 << 53) + 1,
        (1 << 53) + 2,
        (1 << 53) + 3,
        (1 << 54) + 2,
        (1 << 54) + 6,
        (1 << 60) + 1,
        (1 << 62) + (1 << 9),
        (1 << 62) + (3 << 9),
        usize::MAX - 1024,
        usize::MAX - 1,
        usize::MAX,
    ];
    for &total in counts.iter() {
        for &end in counts.iter().filter(|&&end| end <= total) {
            for &start in counts.iter().filter(|&&start| start <= end) {
                let mut scrollbar = Scrollbar::default();
                scrollbar.set_total(total).set_shown_range(start..end);
                let (above, shown, below) = ratios(total, start, end);
                assert_eq!(value(scrollbar.ratio_above()), above);
                assert_eq!(value(scrollbar.ratio_shown()), shown);
                assert_eq!(value(scrollbar.ratio_below()), below);
                for height in [1u16, 9, 500, 40_000, u16::MAX] {
                    assert_eq!(
                        scrollbar.above_height(height),
                        (height as f64 * above).floor() as u16
                    );
                    assert_eq!(
                        scrollbar.below_height(height),
                        (height as f64 * below).floor() as u16
                    );
                    assert_eq!(
                        scrollbar.shown_height(height),
                        height - scrollbar.below_height(height)
                            - scrollbar.above_height(height)
                    );
                }
            }
        }
    }
}

#[test]
fn everything_shown_is_all_thumb() {
    for total in [0usize, 1, 2, 10, 398, usize::MAX] {
        let mut scrollbar = Scrollbar::default();
        scrollbar.set_total(total).set_shown_range(0..total);
        for height in [0u16, 1, 5, 500, u16::MAX] {
            assert_eq!(scrollbar.above_height(height), 0);
            assert_eq!(scrollbar.below_height(height), 0);
            assert_eq!(scrollbar.shown_height(height), height);
        }
    }
}

#[test]
fn shrinking_total_keeps_the_width_of_the_range() {
    let mut scrollbar = Scrollbar::default();
    scrollbar.set_total(100).set_shown_range(70..90).set_total(80);
    assert_eq!(scrollbar.shown_range(), 60..80);
    scrollbar.set_total(10);
    assert_eq!(scrollbar.shown_range(), 0..10);
}

#[test]
fn it_draws_the_thumb_between_the_other_bands() {
    let mut frame = Frame::empty(Rect::new(0, 0, 3, 10));
    let mut scrollbar = Scrollbar::default();
    scrollbar.set_total(10).set_shown_range(2..6);
    assert_eq!(scrollbar.above_height(10), 2);
    assert_eq!(scrollbar.shown_height(10), 4);
    assert_eq!(scrollbar.below_height(10), 4);
    scrollbar.draw(&Rect::new(2, 0, 1, 10), &mut frame);
    let black = Cell::new(' ', Style::default().bg(Color::Black));
    let white = Cell::new(' ', Style::default().bg(Color::White));
    for y in 0..10u16 {
        assert_eq!(*frame.get(0, y), Cell::default());
        assert_eq!(*frame.get(1, y), Cell::default());
        let expected = if y >= 2 && y < 6 { white } else { black };
        assert_eq!(*frame.get(2, y), expected, "row {}", y);
    }
}

#[test]
fn the_thumb_has_as_many_rows_as_its_band() {
    for total in 1..30usize {
        for start in 0..total {
            for end in (start + 1)..=total {
                let mut scrollbar = Scrollbar::default();
                scrollbar.set_total(total).set_shown_range(start..end);
                for height in [1u16, 2, 5, 24] {
                    let area = Rect::new(1, 2, 2, height);
                    let mut frame = Frame::empty(Rect::new(0, 0, 4, height + 3));
                    scrollbar.draw(&area, &mut frame);
                    let above = scrollbar.above_height(height);
                    let shown = scrollbar.shown_height(height);
                    let mut thumb = 0;
                    for y in 0..height {
                        let cell = *frame.get(1, 2 + y);
                        assert_eq!(cell, *frame.get(2, 2 + y));
                        assert_eq!(cell.symbol, ' ');
                        let white = cell.style.bg == Color::White;
                        assert_eq!(white, above <= y && y < above + shown);
                        assert!(white || cell.style.bg == Color::Black);
                        if white {
                            thumb += 1;
                        }
                    }
                    assert_eq!(thumb, shown);
                    assert_eq!(*frame.get(0, 2), Cell::default());
                    assert_eq!(*frame.get(3, 2), Cell::default());
                    assert_eq!(*frame.get(1, 1), Cell::default());
                    assert_eq!(*frame.get(1, 2 + height), Cell::default());
                }
            }
        }
    }
}

#[test]
fn it_draws_nothing_without_items() {
    let mut frame = Frame::empty(Rect::new(0, 0, 1, 4));
    let mut scrollbar = Scrollbar::default();
    scrollbar.draw(&Rect::new(0, 0, 1, 4), &mut frame);
    assert_eq!(frame, Frame::empty(Rect::new(0, 0, 1, 4)));
    scrollbar.set_total(10).set_shown_range(3..3);
    scrollbar.draw(&Rect::new(0, 0, 1, 4), &mut frame);
    assert_eq!(frame, Frame::empty(Rect::new(0, 0, 1, 4)));

    // Nothing is drawn whatever the area and the frame are.
    let far = Rect::new(u16::MAX, u16::MAX, 9, 9);
    scrollbar.draw(&far, &mut frame);
    assert_eq!(frame, Frame::empty(Rect::new(0, 0, 1, 4)));
    let mut broken = Frame {
        area: Rect::new(0, 0, 5, 5),
        content: vec![Cell::default(); 3],
    };
    scrollbar.draw(&far, &mut broken);
    Scrollbar::default().draw(&far, &mut broken);
    assert_eq!(broken.content.len(), 3);
    assert_eq!(broken.area, Rect::new(0, 0, 5, 5));
}
