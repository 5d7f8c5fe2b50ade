use monado_frame::gallery::{ends_row, page_label, pages, total_label, Gallery, GalleryClicks, GalleryEffect, GalleryItem, GALLERY_PER};

fn items(n: usize) -> Vec<GalleryItem> {
    (0..n).map(|i| GalleryItem { name: format!("{i}.png").into_bytes(), when: format!("day {i}") }).collect()
}

fn clicks() -> GalleryClicks {
    GalleryClicks { close: false, open: None, delete: None, prev: false, next: false }
}

fn opened(n: usize) -> Gallery {
    let mut g = Gallery::new();
    g.open(items(n));
    g
}

fn show_all(g: &mut Gallery) {
    let (start, end) = g.page_range();
    g.show_thumbs(&vec![true; end - start]);
}

#[test]
fn page_counts() {
    for (total, expected) in [(0, 1), (1, 1), (12, 1), (13, 2), (24, 2), (25, 3)] {
        assert_eq!(pages(total), expected, "{total}");
    }
    assert_eq!(pages(usize::MAX), usize::MAX / 12 + 1);
}

#[test]
fn gallery_labels() {
    assert_eq!(page_label(1, 25), "Page 2 / 3");
    assert_eq!(page_label(0, 0), "Page 1 / 1");
    assert_eq!(page_label(9, 12), "Page 10 / 1");
    assert_eq!(total_label(107), "107 shots");
    assert_eq!(total_label(0), "0 shots");
}

#[test]
fn rows_have_four() {
    let ends: Vec<usize> = (0..12).filter(|k| ends_row(*k)).collect();
    assert_eq!(ends, [3, 7, 11]);
}

#[test]
fn pages_cover_every_screenshot_once() {
    let mut g = opened(30);
    let mut seen = Vec::new();
    loop {
        let (start, end) = g.page_range();
        assert!(end - start <= GALLERY_PER);
        seen.extend(start..end);
        if g.click(&GalleryClicks { next: true, ..clicks() }) != GalleryEffect::Reload {
            break;
        }
    }
    assert_eq!(seen, (0..30).collect::<Vec<usize>>());
}

#[test]
fn pages_turn_within_bounds() {
    let mut g = opened(13);
    assert_eq!(g.click(&GalleryClicks { prev: true, ..clicks() }), GalleryEffect::Nothing);
    assert_eq!(g.page, 0);
    assert_eq!(g.click(&GalleryClicks { next: true, ..clicks() }), GalleryEffect::Reload);
    assert_eq!(g.page, 1);
    assert_eq!(g.page_range(), (12, 13));
    assert_eq!(g.click(&GalleryClicks { next: true, ..clicks() }), GalleryEffect::Nothing);
    assert_eq!(g.click(&GalleryClicks { prev: true, ..clicks() }), GalleryEffect::Reload);
    assert_eq!(g.page, 0);
}

#[test]
fn thumbnails_open_their_own_screenshot() {
    let mut g = opened(14);
    g.click(&GalleryClicks { next: true, ..clicks() });
    g.show_thumbs(&vec![false, true]);
    assert_eq!(g.shown, [13]);
    assert_eq!(g.click(&GalleryClicks { open: Some(0), ..clicks() }), GalleryEffect::Open(13));
    assert_eq!(g.click(&GalleryClicks { delete: Some(0), ..clicks() }), GalleryEffect::Delete(13));
    assert_eq!(g.click(&GalleryClicks { open: Some(1), ..clicks() }), GalleryEffect::Nothing);
    let (name, when) = g.item(13).unwrap();
    assert_eq!((name, when), (b"13.png".to_vec(), String::from("day 13")));
    assert!(g.item(14).is_none());
}

#[test]
fn later_buttons_win() {
    let mut g = opened(13);
    show_all(&mut g);
    let all = GalleryClicks { close: true, open: Some(2), delete: None, prev: true, next: false };
    assert_eq!(g.click(&all), GalleryEffect::Open(2));
    assert!(g.visible);
    let all = GalleryClicks { close: true, open: Some(2), delete: Some(3), prev: true, next: true };
    assert_eq!(g.click(&all), GalleryEffect::Reload);
    assert_eq!(g.page, 1);
}

#[test]
fn an_empty_gallery_can_only_be_closed() {
    let mut g = opened(0);
    assert_eq!(g.page_range(), (0, 0));
    let all = GalleryClicks { close: false, open: Some(0), delete: Some(0), prev: true, next: true };
    assert_eq!(g.click(&all), GalleryEffect::Nothing);
    assert!(g.visible);
    assert_eq!(g.click(&GalleryClicks { close: true, ..clicks() }), GalleryEffect::Nothing);
    assert!(!g.visible);
}

#[test]
fn deleting_the_last_of_a_page_goes_back_a_page() {
    let mut g = opened(25);
    g.click(&GalleryClicks { next: true, ..clicks() });
    g.click(&GalleryClicks { next: true, ..clicks() });
    assert_eq!(g.page, 2);
    g.refresh(items(24));
    assert_eq!((g.page, g.shown.len()), (1, 0));
    g.refresh(items(24));
    assert_eq!(g.page, 1);
    g.refresh(items(0));
    assert_eq!(g.page, 0);
}
