use bad_frpc_launcher::app_info::AppInfo;
use bad_frpc_launcher::frpc::LogEvent;
use bad_frpc_launcher::log_buffer::LogBuffer;
use bad_frpc_launcher::state::{
    ConfigTab, LauncherState, MainTab, PollOutcome, SaveOutcome, StartStep, StopOutcome,
};
use bad_frpc_launcher::toasts::NoticeLevel;

fn log_lines(s: &LauncherState) -> Vec<String> {
    (0..s.logs.len()).map(|i| s.logs.line(i).clone()).collect()
}

#[test]
fn new_state_defaults() {
    let s = LauncherState::new(String::new());
    assert_eq!(s.frpc_exe_path, "./frpc/frpc.exe");
    assert_eq!(s.config_path, "./frpc/frpc.toml");
    assert!(s.main_tab == MainTab::Config);
    assert!(s.config_tab == ConfigTab::Simple);
    assert_eq!(s.main_tab_scroll_gen, 0);
    assert!(!s.config_dirty);
    assert_eq!(s.log_path, "bad_frpc_launcher.log");
    assert_eq!(s.logs.len(), 0);
    assert_eq!(s.last_exit_code, None);
    assert_eq!(s.last_error, None);
    assert_eq!(s.simple_form.proxy_name, "minecraft");
}

#[test]
fn new_state_reads_form_from_text() {
    let s = LauncherState::new("serverAddr = \"h\"\n[[proxies]]\nname = \"n\"\n".to_string());
    assert_eq!(s.simple_form.server_addr, "h");
    assert_eq!(s.simple_form.proxy_name, "n");
}

#[test]
fn load_success_and_failure() {
    let mut s = LauncherState::new(String::new());
    s.config_dirty = true;
    s.last_error = Some("old".to_string());
    assert!(s.finish_load_config(Ok("serverAddr = \"x\"\n".to_string())));
    assert_eq!(s.config_text, "serverAddr = \"x\"\n");
    assert!(!s.config_dirty);
    assert_eq!(s.last_error, None);
    assert_eq!(s.simple_form.server_addr, "x");
    assert_eq!(log_lines(&s), vec!["[[Info]] 配置已加载"]);

    assert!(!s.finish_load_config(Err("no such file".to_string())));
    assert_eq!(s.config_text, "serverAddr = \"x\"\n");
    assert_eq!(s.last_error, Some("no such file".to_string()));
    assert_eq!(log_lines(&s)[1], "[[Error]] 加载配置失败: no such file");
}

#[test]
fn save_outcomes() {
    let mut s = LauncherState::new(String::new());
    s.config_dirty = true;
    assert!(!s.finish_save_config(SaveOutcome::DirectoryFailed("denied".to_string())));
    assert!(s.config_dirty);
    assert_eq!(s.last_error, Some("denied".to_string()));
    assert!(!s.finish_save_config(SaveOutcome::WriteFailed("disk".to_string())));
    assert!(s.finish_save_config(SaveOutcome::Saved));
    assert!(!s.config_dirty);
    assert_eq!(s.last_error, None);
    assert_eq!(
        log_lines(&s),
        vec!["[[Error]] 创建目录失败: denied", "[[Error]] 保存配置失败: disk", "[[Info]] 配置已保存"]
    );
}

#[test]
fn sync_between_editors() {
    let mut s = LauncherState::new(String::new());
    s.simple_form.server_addr = "example.org".to_string();
    s.sync_advanced_from_simple();
    assert!(s.config_dirty);
    assert!(s.config_text.starts_with("serverAddr = \"example.org\"\n"));
    s.simple_form.server_addr = "changed".to_string();
    s.sync_simple_from_advanced();
    assert_eq!(s.simple_form.server_addr, "example.org");
}

#[test]
fn start_steps() {
    let mut s = LauncherState::new(String::new());
    match s.begin_start(true) {
        StartStep::AlreadyRunning(n) => {
            assert!(n.level == NoticeLevel::Warning);
            assert_eq!(n.message, "frpc 已在运行");
        }
        _ => panic!("expected refusal"),
    }
    assert_eq!(log_lines(&s), vec!["[[Info]] frpc 已在运行"]);
    assert!(matches!(s.begin_start(false), StartStep::Ready));
    s.config_dirty = true;
    assert!(matches!(s.begin_start(false), StartStep::SaveFirst));
    assert_eq!(s.logs.len(), 1);
}

#[test]
fn start_path_checks() {
    let mut s = LauncherState::new(String::new());
    let n = s.check_start_paths(false, "C:/x/frpc.exe", false, "c.toml").unwrap();
    assert!(n.level == NoticeLevel::Failure);
    assert_eq!(n.message, "找不到 frpc.exe");
    assert_eq!(s.last_error, Some("找不到 frpc.exe".to_string()));
    let n = s.check_start_paths(true, "e", false, "C:/x/frpc.toml").unwrap();
    assert_eq!(n.message, "找不到 frpc.toml");
    assert!(s.check_start_paths(true, "e", true, "c").is_none());
    assert_eq!(
        log_lines(&s),
        vec!["[[Error]] 找不到 frpc.exe: C:/x/frpc.exe", "[[Error]] 找不到 frpc.toml: C:/x/frpc.toml"]
    );
}

#[test]
fn spawn_outcomes() {
    let mut s = LauncherState::new(String::new());
    s.last_exit_code = Some(3);
    let n = s.finish_spawn(Err("bad exe".to_string()), "x");
    assert!(n.level == NoticeLevel::Failure);
    assert_eq!(n.message, "启动失败");
    assert_eq!(s.last_exit_code, Some(3));
    let n = s.finish_spawn(Ok(()), "./frpc/frpc.exe");
    assert!(n.level == NoticeLevel::Success);
    assert_eq!(n.message, "frpc 已启动");
    assert_eq!(s.last_exit_code, None);
    assert_eq!(s.last_error, None);
    assert_eq!(log_lines(&s), vec!["[[Error]] 启动失败: bad exe", "[[Info]] 已启动: ./frpc/frpc.exe"]);
}

#[test]
fn stop_outcomes() {
    let mut s = LauncherState::new(String::new());
    let a = s.finish_stop(StopOutcome::Stopped);
    let b = s.finish_stop(StopOutcome::NotRunning);
    let c = s.finish_stop(StopOutcome::Failed("denied".to_string()));
    assert!(a.level == NoticeLevel::Info && a.message == "已发送停止");
    assert!(b.level == NoticeLevel::Warning && b.message == "未在运行");
    assert!(c.level == NoticeLevel::Failure && c.message == "停止失败");
    assert_eq!(
        log_lines(&s),
        vec!["[[Info]] 已发送停止信号", "[[Info]] frpc 未在运行", "[[Error]] 停止失败: denied"]
    );
}

#[test]
fn poll_outcomes() {
    let mut s = LauncherState::new(String::new());
    assert!(!s.finish_poll(PollOutcome::StillRunning));
    assert_eq!(s.logs.len(), 0);
    assert!(s.finish_poll(PollOutcome::Exited(Some(1))));
    assert_eq!(s.last_exit_code, Some(1));
    assert!(s.finish_poll(PollOutcome::Failed("io".to_string())));
    assert_eq!(s.last_exit_code, Some(1));
    assert!(s.finish_poll(PollOutcome::Exited(None)));
    assert_eq!(s.last_exit_code, None);
    assert_eq!(
        log_lines(&s),
        vec!["[[Exited]] 退出码=1", "[[Error]] 轮询进程状态失败: io", "[[Exited]] 退出码=None"]
    );
}

#[test]
fn events_and_log_saving() {
    let mut s = LauncherState::new(String::new());
    s.record_event(&LogEvent::Stdout("a".to_string()));
    s.record_event(&LogEvent::Error("b".to_string()));
    assert_eq!(s.logs.joined(), "[OUT] a\n[[Error]] b");
    s.finish_save_logs(Ok("./bad_frpc_launcher.log".to_string()));
    s.finish_save_logs(Err("full".to_string()));
    assert_eq!(log_lines(&s)[2], "[[Info]] 日志已保存到 ./bad_frpc_launcher.log");
    assert_eq!(log_lines(&s)[3], "[[Error]] 保存日志失败: full");
    s.clear_logs();
    assert_eq!(s.logs.len(), 0);
    assert_eq!(s.logs.joined(), "");
}

#[test]
fn parse_status_reports_errors() {
    let mut s = LauncherState::new(String::new());
    assert!(s.config_parse_status().is_ok());
    s.config_text = "a = ".to_string();
    let err = s.config_parse_status().unwrap_err();
    assert!(!err.is_empty());
    assert_eq!(err, toml::from_str::<toml::Value>("a = ").unwrap_err().to_string());
}

#[test]
fn autofill_only_replaces_default_or_blank() {
    let mut s = LauncherState::new(String::new());
    s.autofill_config_path("./bin/frpc.toml".to_string());
    assert_eq!(s.config_path, "./bin/frpc.toml");
    s.autofill_config_path("./other.toml".to_string());
    assert_eq!(s.config_path, "./bin/frpc.toml");
    s.config_path = "  ".to_string();
    s.autofill_config_path("./x.toml".to_string());
    assert_eq!(s.config_path, "./x.toml");
    s.config_path = " ./frpc/frpc.toml ".to_string();
    s.autofill_config_path("./y.toml".to_string());
    assert_eq!(s.config_path, "./y.toml");
}

#[test]
fn tab_selection_moves_scroll_generation() {
    let mut s = LauncherState::new(String::new());
    s.select_main_tab(MainTab::Config);
    assert_eq!(s.main_tab_scroll_gen, 0);
    s.select_main_tab(MainTab::Logs);
    assert_eq!(s.main_tab_scroll_gen, 1);
    assert!(s.main_tab == MainTab::Logs);
    s.main_tab_scroll_gen = u64::MAX;
    s.select_main_tab(MainTab::About);
    assert_eq!(s.main_tab_scroll_gen, 0);
    s.select_config_tab(ConfigTab::Advanced);
    assert!(s.config_tab == ConfigTab::Advanced);
    s.mark_config_edited();
    assert!(s.config_dirty);
}

#[test]
fn status_chip_list() {
    let mut s = LauncherState::new(String::new());
    let info = AppInfo::default();
    assert_eq!(s.status_chips(&info), vec!["Bad frpc Launcher 0.1.0", "作者: Unknown"]);
    s.last_exit_code = Some(-2);
    s.last_error = Some("oops".to_string());
    let mut blank_author = AppInfo::default();
    blank_author.author.name = "  ".to_string();
    assert_eq!(
        s.status_chips(&blank_author),
        vec!["Bad frpc Launcher 0.1.0", "上次退出码: -2", "错误: oops"]
    );
}

#[test]
fn log_buffer_keeps_newest_lines() {
    let mut b = LogBuffer::new(3);
    for i in 0..10 {
        b.push(format!("l{}", i));
        assert!(b.len() <= 3);
    }
    let lines: Vec<String> = (0..b.len()).map(|i| b.line(i).clone()).collect();
    assert_eq!(lines, vec!["l7", "l8", "l9"]);
}

#[test]
fn log_buffer_with_zero_limit_keeps_last_line() {
    let mut b = LogBuffer::new(0);
    b.push("a".to_string());
    b.push("b".to_string());
    assert_eq!(b.len(), 1);
    assert_eq!(b.line(0), "b");
}
