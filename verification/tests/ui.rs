use ue_sim::order::{same_ids, sort_ids};
use ue_sim::ui::{b, dot, keyhint, kv, panel, s, Color, Style};

#[test]
fn theme_colours_have_parts() {
    assert_eq!(Color::Accent.parts(), Some((125, 207, 255)));
    assert_eq!(Color::Good.parts(), Some((158, 206, 106)));
    assert_eq!(Color::Bad.parts(), Some((247, 118, 142)));
    assert_eq!(Color::ChipBg.parts(), Some((30, 34, 52)));
    assert_eq!(Color::Rgb(1, 2, 3).parts(), Some((1, 2, 3)));
    assert_eq!(Color::Yellow.parts(), None);
}

#[test]
fn a_focused_panel_is_bright() {
    let p = panel("Launch", true);
    assert_eq!((p.title.text.as_str(), p.border), (" Launch ", Color::Accent));
    assert_eq!(p.title.style, Style::strong(Color::Accent));
    let p = panel("Launch", false);
    assert_eq!((p.title.style, p.border), (Style::strong(Color::Subtle), Color::Border));
}

#[test]
fn pieces_of_lines_are_styled() {
    let v = kv("a: ", "1", Color::Good);
    assert_eq!((v[0].text.as_str(), v[0].style), ("a: ", Style::fg(Color::Muted)));
    assert_eq!((v[1].text.as_str(), v[1].style), ("1", Style::strong(Color::Good)));
    let v = keyhint("r", "run");
    assert_eq!(v[0].text, " r ");
    assert_eq!(v[0].style, Style::strong(Color::Black).on(Color::Accent));
    assert_eq!((v[1].text.as_str(), v[1].style), (" run   ", Style::fg(Color::Subtle)));
    assert_eq!((dot(true).text.as_str(), dot(true).style), ("●", Style::fg(Color::Good)));
    assert_eq!((dot(false).text.as_str(), dot(false).style), ("○", Style::fg(Color::Bad)));
    assert_eq!(s("x", Color::Warn).style, Style::fg(Color::Warn));
    assert_eq!(b("x", Color::Warn).style, Style::strong(Color::Warn));
}

#[test]
fn numbers_are_sorted() {
    assert_eq!(sort_ids(&vec![3, 1, 2, 1]), vec![1, 1, 2, 3]);
    assert!(same_ids(&vec![1, 2], &vec![1, 2]));
    assert!(!same_ids(&vec![1, 2], &vec![2, 1]));
    assert!(!same_ids(&vec![1], &vec![1, 2]));
}
