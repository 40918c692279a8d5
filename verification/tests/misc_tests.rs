use bad_frpc_launcher::app_info::{is_filled, AppInfo};
use bad_frpc_launcher::palette::{
    editor_badges, log_line_color, run_badge, status_badge_colors, tab_button_colors,
    tinted_button_colors, Rgb, StatusKind,
};
use bad_frpc_launcher::paths::{
    candidate_bases, display_relative, path_to_string, resolve_choice, Resolution,
};
use bad_frpc_launcher::toasts::{toast_colors, NoticeLevel, ToastQueue};
use std::path::PathBuf;

fn rgb(r: u8, g: u8, b: u8) -> Rgb {
    Rgb { r, g, b }
}

#[test]
fn app_info_defaults_and_title() {
    let info = AppInfo::default();
    assert_eq!(info.software.name, "Bad frpc Launcher");
    assert_eq!(info.software.version, "0.1.0");
    assert_eq!(info.software.description, "frpc GUI 启动器");
    assert_eq!(info.software.homepage, "");
    assert_eq!(info.author.name, "Unknown");
    assert_eq!(info.window_title(), "Bad frpc Launcher 0.1.0");
}

#[test]
fn about_text_hides_blank_fields() {
    let mut info = AppInfo::default();
    info.author.bio = " ".to_string();
    info.author.contact = "me@example.org".to_string();
    info.software.homepage = "https://example.org".to_string();
    let a = info.about_text();
    assert_eq!(a.title, "Bad frpc Launcher");
    assert_eq!(a.version_line, "版本 0.1.0");
    assert_eq!(a.description, Some("frpc GUI 启动器".to_string()));
    assert_eq!(a.author_line, "作者: Unknown");
    assert_eq!(a.bio_line, None);
    assert_eq!(a.contact_line, Some("联系方式: me@example.org".to_string()));
    assert_eq!(a.homepage, Some("https://example.org".to_string()));
    assert!(!is_filled("\u{3000}\t"));
}

#[test]
fn log_line_colors() {
    assert_eq!(log_line_color("[[Error]] x"), rgb(205, 78, 96));
    assert_eq!(log_line_color("[ERR] x"), rgb(205, 78, 96));
    assert_eq!(log_line_color("[[Exited]] 退出码=0"), rgb(160, 107, 70));
    assert_eq!(log_line_color("[[Info]] ok"), rgb(92, 130, 192));
    assert_eq!(log_line_color("[OUT] login to server success"), rgb(76, 153, 108));
    assert_eq!(log_line_color("[OUT] [tcp] start proxy success"), rgb(76, 153, 108));
    assert_eq!(log_line_color("[OUT] proxy added: [a]"), rgb(76, 153, 108));
    assert_eq!(log_line_color("[OUT] try to connect to server..."), rgb(198, 140, 62));
    assert_eq!(log_line_color("[OUT] other"), rgb(86, 78, 92));
    assert_eq!(log_line_color("login to server success"), rgb(86, 78, 92));
}

#[test]
fn badges_and_buttons() {
    assert_eq!(
        status_badge_colors(StatusKind::Dirty),
        (rgb(255, 246, 230), rgb(238, 214, 165), rgb(138, 92, 20))
    );
    assert_eq!(status_badge_colors(StatusKind::SyntaxOk), status_badge_colors(StatusKind::Saved));
    assert_eq!(status_badge_colors(StatusKind::Error).2, rgb(156, 62, 78));
    assert_eq!(editor_badges(true, false), (StatusKind::SyntaxOk, StatusKind::Saved));
    assert_eq!(editor_badges(false, true), (StatusKind::Error, StatusKind::Dirty));
    let (text, fill) = run_badge(true);
    assert_eq!(text, "运行中");
    assert_eq!(fill, rgb(91, 201, 137));
    assert_eq!(run_badge(false).0, "已停止");
    assert_eq!(tab_button_colors(true).0, rgb(255, 201, 226));
    assert_eq!(tab_button_colors(false).1, rgb(108, 96, 112));
    let own = (rgb(1, 2, 3), rgb(4, 5, 6), rgb(7, 8, 9));
    assert_eq!(tinted_button_colors(true, own.0, own.1, own.2), own);
    assert_eq!(tinted_button_colors(false, own.0, own.1, own.2).2, rgb(150, 138, 156));
}

#[test]
fn candidate_order() {
    assert_eq!(candidate_bases(Some(1), 2, Some(3), Some(4)), vec![1, 2, 3, 4]);
    assert_eq!(candidate_bases(None, 2, Some(3), None), vec![2, 3]);
    assert_eq!(candidate_bases(Some(1), 2, None, Some(4)), vec![1, 2]);
}

#[test]
fn resolution_choices() {
    assert_eq!(resolve_choice(true, &vec![false, true]), Resolution::AsGiven);
    assert_eq!(resolve_choice(false, &vec![false, true, true]), Resolution::Joined(1));
    assert_eq!(resolve_choice(false, &vec![false, false]), Resolution::Joined(0));
    assert_eq!(resolve_choice(false, &vec![]), Resolution::Joined(0));
}

#[test]
fn relative_display() {
    assert_eq!(display_relative(Some(String::new()), "/abs".to_string()), ".");
    assert_eq!(display_relative(Some("frpc/frpc.toml".to_string()), "/abs".to_string()), "./frpc/frpc.toml");
    assert_eq!(display_relative(None, "/other/x".to_string()), "/other/x");
}

#[test]
fn path_display_inside_and_outside() {
    let base = PathBuf::from("/opt/app");
    assert_eq!(path_to_string(&base, &PathBuf::from("/opt/app/frpc/frpc.toml")), "./frpc/frpc.toml");
    assert_eq!(path_to_string(&base, &PathBuf::from("/opt/app")), ".");
    assert_eq!(path_to_string(&base, &PathBuf::from("/srv/x.toml")), "/srv/x.toml");
    assert_eq!(
        path_to_string(&base, &PathBuf::from("/opt/application/x")),
        "/opt/application/x"
    );
    let abs = PathBuf::from("/opt/app/frpc/frpc.exe");
    assert_eq!(base.join(path_to_string(&base, &abs)).components().collect::<Vec<_>>(), abs.components().collect::<Vec<_>>());
}

#[test]
fn toast_queue_keeps_four_newest() {
    let mut q: ToastQueue<&str> = ToastQueue::new();
    let mut ids = Vec::new();
    for m in ["a", "b", "c", "d", "e", "f"] {
        ids.push(q.push(m));
        assert!(q.len() <= 4);
    }
    assert_eq!(ids, vec![1, 2, 3, 4, 5, 6]);
    let shown: Vec<(u64, &str)> = (0..q.len()).map(|i| *q.entry(i)).collect();
    assert_eq!(shown, vec![(3, "c"), (4, "d"), (5, "e"), (6, "f")]);
}

#[test]
fn toast_dismiss_and_expiry() {
    let mut q: ToastQueue<u8> = ToastQueue::new();
    for v in [10u8, 20, 30] {
        q.push(v);
    }
    q.dismiss(&vec![2, 99]);
    let shown: Vec<(u64, u8)> = (0..q.len()).map(|i| *q.entry(i)).collect();
    assert_eq!(shown, vec![(1, 10), (3, 30)]);
    q.retain_flagged(&vec![false, true]);
    assert_eq!(q.len(), 1);
    assert_eq!(*q.entry(0), (3, 30));
    assert_eq!(q.push(40), 4);
}

#[test]
fn toast_levels() {
    assert_eq!(NoticeLevel::Info.duration_secs(), 2);
    assert_eq!(NoticeLevel::Success.duration_secs(), 2);
    assert_eq!(NoticeLevel::Warning.duration_secs(), 3);
    assert_eq!(NoticeLevel::Failure.duration_secs(), 4);
    let c = toast_colors(NoticeLevel::Warning);
    assert_eq!(c.fill, rgb(255, 246, 230));
    assert_eq!(c.title, rgb(138, 92, 20));
    assert_eq!(toast_colors(NoticeLevel::Info).stroke, rgb(190, 214, 245));
}
