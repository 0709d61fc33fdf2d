use chezmoi::client::component::card::history_chart::chart_geometry;
use chezmoi::client::component::card::miflora::{image_style, last_timestamp};
use chezmoi::client::component::head::Head;
use chezmoi::client::component::header::Header;
use chezmoi::client::component::helper::{format_datetime, Classnames};
use chezmoi::client::component::icon::{Icon, IconKind, IconSize};
use chezmoi::client::component::line_chart::x_range;
use chezmoi::client::size::{Dimension, Size};
use chezmoi::client::view::{dashboard, error, home};

#[test]
fn sizes_and_dimensions() {
    assert_eq!(Size::Sm.as_str(), "sm");
    assert_eq!(Size::Md.as_str(), "md");
    let d = Dimension::new(Size::Sm, Size::Md);
    assert_eq!(d.width, Size::Sm);
    assert_eq!(d.class_name(), "x-sm y-md");
}

#[test]
fn icons() {
    assert_eq!(IconKind::Battery.as_str(), "ri-battery-2-line");
    assert_eq!(IconKind::Dashboard.as_str(), "ri-dashboard-2-line");
    assert_eq!(IconKind::Sun.as_str(), "ri-sun-line");
    assert_eq!(IconKind::TemperatureHot.as_str(), "ri-temp-hot-line");
    assert_eq!(IconKind::Time.as_str(), "ri-time-line");
    assert_eq!(IconKind::Water.as_str(), "ri-drop-line");
    assert_eq!(IconSize::default().as_str(), "ri-1x");
    let icon = Icon::new(IconKind::Sun);
    assert_eq!(icon.size, IconSize::Md);
    assert_eq!(icon.class_name(), "icon ri-sun-line ri-1x");
}

#[test]
fn head_and_header() {
    let head = Head::new(String::from("Home"), "/style.css");
    assert_eq!(head.title_text(), "🏠 Chez Moi - Home");
    assert_eq!(head.title, "Home");
    assert_eq!(head.style_path, "/style.css");
    let header: Header<u8> = Header::new(String::from("Home"));
    assert!(header.content.is_none());
    let header = header.with_content(4);
    assert_eq!(header.content, Some(4));
    assert_eq!(header.title, "Home");
}

#[test]
fn classnames_from_pair() {
    let names = Classnames::from(("card", Some("x-sm")));
    assert_eq!(names.first, "card");
    assert_eq!(names.second, Some("x-sm"));
}

#[test]
fn datetime_formatting() {
    assert_eq!(format_datetime(0).as_deref(), Some("1970/01/01 00:00"));
    assert_eq!(format_datetime(1431648000).as_deref(), Some("2015/05/15 00:00"));
    assert_eq!(format_datetime(u64::MAX), format_datetime(u64::MAX));
    assert_eq!(format_datetime(u64::MAX).as_deref(), Some("1969/12/31 23:59"));
    assert_eq!(format_datetime(i64::MAX as u64), None);
}

#[test]
fn chart_x_range() {
    assert_eq!(x_range(Some(0..10), &vec![3, 40]), Some(0..10));
    assert_eq!(x_range(None, &vec![]), None);
    assert_eq!(x_range(None, &vec![5, 1, 10, 7, 2]), Some(1..10));
    assert_eq!(x_range(None, &vec![4]), Some(4..4));
}

#[test]
fn chart_geometry_by_dimension() {
    let g = chart_geometry(Dimension::new(Size::Sm, Size::Sm));
    assert_eq!((g.width, g.height, g.margin_left, g.margin_bottom), (190, 120, 25, 10));
    let g = chart_geometry(Dimension::new(Size::Md, Size::Md));
    assert_eq!((g.width, g.height, g.margin_left, g.margin_bottom), (410, 280, 35, 15));
    let g = chart_geometry(Dimension::new(Size::Md, Size::Sm));
    assert_eq!((g.width, g.height, g.margin_left, g.margin_bottom), (410, 120, 35, 10));
}

#[test]
fn miflora_last_timestamp() {
    assert_eq!(last_timestamp(&vec![None, None]), None);
    assert_eq!(last_timestamp(&vec![Some(3), None, Some(9), Some(4), None]), Some(9));
    assert_eq!(last_timestamp(&vec![]), None);
}

#[test]
fn dashboard_sections() {
    let section = dashboard::Section::new(String::from("Simple"))
        .with_card(1u8)
        .maybe_with_card(None)
        .maybe_with_card(Some(2));
    let mut section = section;
    section.add_card(3);
    assert_eq!(section.cards, vec![1, 2, 3]);
    assert_eq!(section.name, "Simple");
    let view = dashboard::View::new(Vec::new()).with_section(section);
    assert_eq!(view.sections.len(), 1);
    let empty: dashboard::View<u8> = dashboard::View::default();
    assert!(empty.sections.is_empty());
}

#[test]
fn home_sections() {
    let view = home::View::new("/style.css")
        .with_section(home::Section::new(String::from("With last values")).with_card("a"))
        .with_section(home::Section::new(String::from("Without last values")));
    assert_eq!(view.style_path, "/style.css");
    assert_eq!(view.sections.len(), 2);
    assert_eq!(view.sections[0].cards, vec!["a"]);
    assert!(view.sections[1].cards.is_empty());
}

#[test]
fn error_view() {
    assert_eq!(error::View::new(String::from("boom")).message, "boom");
    assert_eq!(error::View::default().message, "");
}

#[test]
fn miflora_image_style() {
    assert_eq!(image_style("https://x/y.jpg"), "background-image: url(https://x/y.jpg)");
}
