use ezicode::badge::{Badge, BadgeVariant};
use ezicode::collapsible::Collapsible;
use ezicode::color::{try_parse_color, ColorError, Rgba8};
use ezicode::dock::{Axis, Dock, DockPlacement};
use ezicode::form::{h_form, v_form, Form};
use ezicode::gpu::parse_pci_id;
use ezicode::title_bar::{title_bar_left_padding, window_controls, ControlIcon, PlatformStyle, TitleBarDrag};
use ezicode::window_border::{frame_layout, resize_edge, window_paddings, Decorations, Edges, ResizeEdge, Tiling};

#[test]
fn test_parse_device_id() {
    assert!(parse_pci_id("0xABCD").is_ok());
    assert!(parse_pci_id("ABCD").is_ok());
    assert!(parse_pci_id("abcd").is_ok());
    assert!(parse_pci_id("1234").is_ok());
    assert!(parse_pci_id("123").is_err());
    assert_eq!(
        parse_pci_id(&format!("{:x}", 0x1234)).unwrap(),
        parse_pci_id(&format!("{:X}", 0x1234)).unwrap(),
    );
    assert_eq!(
        parse_pci_id(&format!("{:#x}", 0x1234)).unwrap(),
        parse_pci_id(&format!("{:#X}", 0x1234)).unwrap(),
    );
    assert_eq!(
        parse_pci_id(&format!("{:#x}", 0x1234)).unwrap(),
        parse_pci_id(&format!("{:#X}", 0x1234)).unwrap(),
    );
}

#[test]
fn pci_ids_read_as_hex() {
    assert_eq!(parse_pci_id(" 0x10DE "), Ok(0x10de));
    assert_eq!(parse_pci_id("0X1002"), Ok(0x1002));
    assert!(parse_pci_id("12345").is_err());
    assert!(parse_pci_id("12g4").is_err());
    assert!(parse_pci_id("").is_err());
}

fn hsla(h: f32, s: f32, l: f32, a: f32) -> (f32, f32, f32, f32) {
    (h.clamp(0., 1.), s.clamp(0., 1.), l.clamp(0., 1.), a.clamp(0., 1.))
}

fn to_hsla(c: Rgba8) -> (f32, f32, f32, f32) {
    let r = c.r as f32 / 255.;
    let g = c.g as f32 / 255.;
    let b = c.b as f32 / 255.;
    let a = c.a as f32 / 255.;
    let max = r.max(g.max(b));
    let min = r.min(g.min(b));
    let delta = max - min;
    let l = (max + min) / 2.0;
    let s = if l == 0.0 || l == 1.0 {
        0.0
    } else if l < 0.5 {
        delta / (2.0 * l)
    } else {
        delta / (2.0 - 2.0 * l)
    };
    let h = if delta == 0.0 {
        0.0
    } else if max == r {
        ((g - b) / delta).rem_euclid(6.0) / 6.0
    } else if max == g {
        ((b - r) / delta + 2.0) / 6.0
    } else {
        ((r - g) / delta + 4.0) / 6.0
    };
    (h, s, l, a)
}

#[test]
fn test_try_parse_color() {
    assert_eq!(
        try_parse_color("#F2F200").ok().map(to_hsla),
        Some(hsla(0.16666667, 1., 0.4745098, 1.0))
    );
    assert_eq!(
        try_parse_color("#00f21888").ok().map(to_hsla),
        Some(hsla(0.34986225, 1.0, 0.4745098, 0.53333336))
    );
}

#[test]
fn short_colors_double_their_digits() {
    assert_eq!(try_parse_color("#f80"), Ok(Rgba8 { r: 0xff, g: 0x88, b: 0x00, a: 0xff }));
    assert_eq!(try_parse_color(" #1234 "), Ok(Rgba8 { r: 0x11, g: 0x22, b: 0x33, a: 0x44 }));
    assert_eq!(try_parse_color("#12345"), Err(ColorError::InvalidFormat));
    assert_eq!(try_parse_color("123456"), Err(ColorError::InvalidFormat));
    assert_eq!(try_parse_color("#12345g"), Err(ColorError::InvalidDigit));
}

#[test]
fn badge_counts_and_visibility() {
    let b = Badge::new();
    assert!(!b.is_visible());
    let b = b.count(5);
    assert!(b.is_visible());
    assert_eq!(b.count_label(), "5");
    let b = b.count(120);
    assert_eq!(b.count_label(), "99+");
    let b = b.max(200);
    assert_eq!(b.count_label(), "120");
    assert!(Badge::new().dot().is_visible());
    assert!(BadgeVariant::Icon("bell".into()).is_icon());
    assert!(BadgeVariant::Number.is_number());
}

#[test]
fn collapsible_hides_content_while_closed() {
    let c: Collapsible<&str> = Collapsible::new().extend(vec!["header"]).content("body");
    assert_eq!(c.visible_children(), vec!["header"]);
    let c: Collapsible<&str> = Collapsible::new().extend(vec!["header"]).content("body").open(true);
    assert_eq!(c.visible_children(), vec!["header", "body"]);
}

#[test]
fn dock_open_and_collapse_rules() {
    let mut d = Dock::left();
    assert!(d.is_open());
    assert!(d.toggle_open());
    assert!(!d.is_open());
    assert!(!d.shows_panel());
    d.set_collapsible(false);
    assert!(d.is_open());
    assert!(!d.set_open(true));
    let bottom = Dock::from_state(DockPlacement::Bottom, false);
    assert!(bottom.shows_panel());
    assert_eq!(DockPlacement::Bottom.axis(), Axis::Vertical);
    assert_eq!(DockPlacement::Right.axis(), Axis::Horizontal);
    assert!(DockPlacement::Left.is_left());
}

#[test]
fn forms_index_their_fields() {
    let f: Form<&str> = v_form().child("name").children(vec!["email", "age"]).columns(2);
    let fields = f.into_indexed_fields();
    assert_eq!(fields, vec![(0, "name"), (1, "email"), (2, "age")]);
    let h: Form<u8> = h_form();
    assert_eq!(h.into_indexed_fields(), vec![]);
}

#[test]
fn window_paddings_follow_tiling() {
    let tiling = Tiling { top: true, left: false, right: false, bottom: false };
    let p = window_paddings(false, false, Decorations::Client { tiling }, 12);
    assert_eq!(p, Edges { top: 0, right: 12, bottom: 12, left: 12 });
    assert_eq!(window_paddings(true, false, Decorations::Client { tiling }, 12), Edges { top: 0, right: 0, bottom: 0, left: 0 });
    assert_eq!(window_paddings(false, false, Decorations::Server, 12), Edges { top: 0, right: 0, bottom: 0, left: 0 });
}

#[test]
fn resize_edges_and_frame() {
    let none = Tiling { top: false, left: false, right: false, bottom: false };
    let near = |top, bottom, left, right| Edges { top, right, bottom, left };
    assert_eq!(resize_edge(near(true, false, true, false), none), Some(ResizeEdge::TopLeft));
    assert_eq!(resize_edge(near(false, true, false, false), none), Some(ResizeEdge::Bottom));
    assert_eq!(resize_edge(near(true, true, false, false), none), None);
    let top_tiled = Tiling { top: true, ..none };
    assert_eq!(resize_edge(near(true, false, true, false), top_tiled), Some(ResizeEdge::Left));
    let f = frame_layout(false, false, Decorations::Client { tiling: none });
    assert!(f.can_resize && f.shadow && f.sides.top);
    let g = frame_layout(false, true, Decorations::Client { tiling: none });
    assert!(!g.floating && !g.can_resize);
}

#[test]
fn title_bar_controls_per_platform() {
    assert!(window_controls(PlatformStyle::Mac, false, true, true, true, false).is_empty());
    assert_eq!(
        window_controls(PlatformStyle::Windows, false, false, false, false, true),
        vec![ControlIcon::Minimize, ControlIcon::Restore, ControlIcon::Close]
    );
    assert_eq!(
        window_controls(PlatformStyle::Linux, false, true, false, true, false),
        vec![ControlIcon::Maximize, ControlIcon::Close]
    );
    assert!(window_controls(PlatformStyle::Linux, false, false, true, true, false).is_empty());
    assert_eq!(title_bar_left_padding(PlatformStyle::Mac), 78);
    assert_eq!(ControlIcon::Close.caption_glyph(), "\u{e8bb}");
    let mut drag = TitleBarDrag::new();
    assert!(!drag.mouse_move());
    drag.mouse_down();
    assert!(drag.mouse_move());
    assert!(!drag.mouse_move());
}
