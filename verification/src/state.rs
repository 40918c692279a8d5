//! The launcher's state and its transitions. The window code does the file,
//! process and clock work and reports each outcome here; every transition
//! says what it changes, what it logs and what it tells the user.
use vstd::prelude::*;
use crate::app_info::{is_filled, AppInfo};
use crate::text::{decimal, format_i64, is_blank};
use crate::config::{config_toml, default_form, form_after_reading, SimpleConfigForm};
use crate::frpc::{event_log_line, exit_log_line, format_exit_line, format_log_event, LogEvent};
use crate::log_buffer::{lines_after_push, LogBuffer};
use crate::text::{trim, trimmed};
use crate::toasts::{Notice, NoticeLevel};
use crate::toml_doc::{parse_toml, toml_document};

verus! {

/// The page shown in the main area.
#[derive(Clone, Copy, Debug, PartialEq, Eq, Structural)]
pub enum MainTab {
    Config,
    Logs,
    About,
}

/// The editor shown on the configuration page.
#[derive(Clone, Copy, Debug, PartialEq, Eq, Structural)]
pub enum ConfigTab {
    Simple,
    Advanced,
}

/// How writing the configuration file went.
pub enum SaveOutcome {
    Saved,
    DirectoryFailed(String),
    WriteFailed(String),
}

/// How asking the child process to stop went.
pub enum StopOutcome {
    Stopped,
    NotRunning,
    Failed(String),
}

/// What polling the child process found.
pub enum PollOutcome {
    StillRunning,
    Exited(Option<i32>),
    Failed(String),
}

/// What to do after a start was asked for.
pub enum StartStep {
    /// frpc runs already; tell the user and stop here.
    AlreadyRunning(Notice),
    /// Save the edited configuration first, and stop if that fails.
    SaveFirst,
    /// Go on to the file checks.
    Ready,
}

/// The path of the frpc executable shown at first.
pub open spec fn default_exe_path() -> Seq<char> {
    "./frpc/frpc.exe"@
}

/// The path of the configuration file shown at first.
pub open spec fn default_config_path() -> Seq<char> {
    "./frpc/frpc.toml"@
}

/// Everything the launcher remembers between frames, apart from the child
/// process, the log channel and the clock.
pub struct LauncherState {
    pub frpc_exe_path: String,
    pub config_path: String,
    pub main_tab: MainTab,
    pub main_tab_scroll_gen: u64,
    pub config_tab: ConfigTab,
    pub simple_form: SimpleConfigForm,
    pub config_text: String,
    pub config_dirty: bool,
    pub log_path: String,
    pub logs: LogBuffer,
    pub last_exit_code: Option<i32>,
    pub last_error: Option<String>,
}

/// A notice of the given level, without title.
pub open spec fn is_notice(n: Notice, level: NoticeLevel, message: Seq<char>) -> bool {
    n.level == level && n.title is None && n.message@ == message
}

fn notice(level: NoticeLevel, message: &str) -> (r: Notice)
    ensures
        is_notice(r, level, message@),
{
    Notice { level, title: None, message: String::from_str(message) }
}

/// `prefix` followed by `detail`.
fn joined(prefix: &str, detail: &str) -> (r: String)
    ensures
        r@ == prefix@ + detail@,
{
    let mut out = String::from_str(prefix);
    out.append(detail);
    out
}

impl LauncherState {
    /// The paths, tabs and log path are those of `other`.
    pub open spec fn same_layout(self, other: LauncherState) -> bool {
        &&& self.frpc_exe_path@ == other.frpc_exe_path@
        &&& self.config_path@ == other.config_path@
        &&& self.main_tab == other.main_tab
        &&& self.main_tab_scroll_gen == other.main_tab_scroll_gen
        &&& self.config_tab == other.config_tab
        &&& self.log_path@ == other.log_path@
    }

    /// The form, the configuration text and its dirty flag are those of `other`.
    pub open spec fn same_config(self, other: LauncherState) -> bool {
        &&& self.simple_form@ == other.simple_form@
        &&& self.config_text@ == other.config_text@
        &&& self.config_dirty == other.config_dirty
    }

    /// The last exit code and the last error are those of `other`.
    pub open spec fn same_status(self, other: LauncherState) -> bool {
        &&& self.last_exit_code == other.last_exit_code
        &&& self.last_error == other.last_error
    }

    /// The log of `self` is that of `other` with `line` added.
    pub open spec fn logged(self, other: LauncherState, line: Seq<char>) -> bool {
        &&& self.logs.contents() == lines_after_push(other.logs.contents(), other.logs.limit(), line)
        &&& self.logs.limit() == other.logs.limit()
    }

    /// The log of `self` is that of `other`.
    pub open spec fn same_logs(self, other: LauncherState) -> bool {
        &&& self.logs.contents() == other.logs.contents()
        &&& self.logs.limit() == other.logs.limit()
    }

    /// The state a launcher starts in, given the text of its configuration
    /// file (empty when it could not be read): default paths, the
    /// configuration page with the simple editor, the form filled from the
    /// text, nothing unsaved, an empty log of at most 5000 lines.
    pub fn new(config_text: String) -> (r: Self)
        ensures
            r.frpc_exe_path@ == default_exe_path(),
            r.config_path@ == default_config_path(),
            r.main_tab == MainTab::Config,
            r.main_tab_scroll_gen == 0,
            r.config_tab == ConfigTab::Simple,
            r.simple_form@ == form_after_reading(default_form(), config_text@),
            r.config_text@ == config_text@,
            !r.config_dirty,
            r.log_path@ == "bad_frpc_launcher.log"@,
            r.logs.contents() == Seq::<Seq<char>>::empty(),
            r.logs.limit() == 5000,
            r.last_exit_code is None,
            r.last_error is None,
    {
        let mut simple_form = SimpleConfigForm::default();
        simple_form.apply_from_toml(config_text.as_str());
        LauncherState {
            frpc_exe_path: String::from_str("./frpc/frpc.exe"),
            config_path: String::from_str("./frpc/frpc.toml"),
            main_tab: MainTab::Config,
            main_tab_scroll_gen: 0,
            config_tab: ConfigTab::Simple,
            simple_form,
            config_text,
            config_dirty: false,
            log_path: String::from_str("bad_frpc_launcher.log"),
            logs: LogBuffer::new(5000),
            last_exit_code: None,
            last_error: None,
        }
    }

    /// Adds a line to the log.
    pub fn push_log(&mut self, line: String)
        ensures
            final(self).logged(*old(self), line@),
            final(self).same_layout(*old(self)),
            final(self).same_config(*old(self)),
            final(self).same_status(*old(self)),
    {
        self.logs.push(line);
    }

    /// Fills the simple form from the configuration text.
    pub fn sync_simple_from_advanced(&mut self)
        ensures
            final(self).simple_form@ == form_after_reading(old(self).simple_form@, old(self).config_text@),
            final(self).config_text@ == old(self).config_text@,
            final(self).config_dirty == old(self).config_dirty,
            final(self).same_layout(*old(self)),
            final(self).same_status(*old(self)),
            final(self).same_logs(*old(self)),
    {
        self.simple_form.apply_from_toml(self.config_text.as_str());
    }

    /// Replaces the configuration text by the TOML of the simple form, and
    /// marks it unsaved.
    pub fn sync_advanced_from_simple(&mut self)
        ensures
            final(self).config_text@ == config_toml(old(self).simple_form@),
            final(self).config_dirty,
            final(self).simple_form@ == old(self).simple_form@,
            final(self).same_layout(*old(self)),
            final(self).same_status(*old(self)),
            final(self).same_logs(*old(self)),
    {
        self.config_text = self.simple_form.to_toml();
        self.config_dirty = true;
    }

    /// Marks the configuration text as edited.
    pub fn mark_config_edited(&mut self)
        ensures
            final(self).config_dirty,
            final(self).simple_form@ == old(self).simple_form@,
            final(self).config_text@ == old(self).config_text@,
            final(self).same_layout(*old(self)),
            final(self).same_status(*old(self)),
            final(self).same_logs(*old(self)),
    {
        self.config_dirty = true;
    }

    /// Takes the outcome of reading the configuration file: its text, or
    /// the error. On success the text replaces the editor's, is marked
    /// saved, fills the simple form and clears the last error; on failure
    /// only the error is kept. Either way one line is logged. Returns
    /// whether the file was read.
    pub fn finish_load_config(&mut self, outcome: Result<String, String>) -> (loaded: bool)
        ensures
            loaded == (outcome is Ok),
            final(self).same_layout(*old(self)),
            final(self).last_exit_code == old(self).last_exit_code,
            match outcome {
                Ok(text) => {
                    &&& final(self).config_text@ == text@
                    &&& !final(self).config_dirty
                    &&& final(self).simple_form@ == form_after_reading(old(self).simple_form@, text@)
                    &&& final(self).last_error is None
                    &&& final(self).logged(*old(self), "[[Info]] 配置已加载"@)
                },
                Err(e) => {
                    &&& final(self).same_config(*old(self))
                    &&& final(self).last_error == Some(e)
                    &&& final(self).logged(*old(self), "[[Error]] 加载配置失败: "@ + e@)
                },
            },
    {
        match outcome {
            Ok(text) => {
                self.config_text = text;
                self.config_dirty = false;
                self.last_error = None;
                self.sync_simple_from_advanced();
                self.push_log(String::from_str("[[Info]] 配置已加载"));
                true
            },
            Err(e) => {
                let line = joined("[[Error]] 加载配置失败: ", e.as_str());
                self.last_error = Some(e);
                self.push_log(line);
                false
            },
        }
    }

    /// Takes the outcome of writing the configuration file. On success the
    /// text is marked saved and the last error cleared; on failure the
    /// error is kept. Either way one line is logged. Returns whether the
    /// file was written.
    pub fn finish_save_config(&mut self, outcome: SaveOutcome) -> (saved: bool)
        ensures
            saved == (outcome is Saved),
            final(self).same_layout(*old(self)),
            final(self).simple_form@ == old(self).simple_form@,
            final(self).config_text@ == old(self).config_text@,
            final(self).last_exit_code == old(self).last_exit_code,
            match outcome {
                SaveOutcome::Saved => {
                    &&& !final(self).config_dirty
                    &&& final(self).last_error is None
                    &&& final(self).logged(*old(self), "[[Info]] 配置已保存"@)
                },
                SaveOutcome::DirectoryFailed(e) => {
                    &&& final(self).config_dirty == old(self).config_dirty
                    &&& final(self).last_error == Some(e)
                    &&& final(self).logged(*old(self), "[[Error]] 创建目录失败: "@ + e@)
                },
                SaveOutcome::WriteFailed(e) => {
                    &&& final(self).config_dirty == old(self).config_dirty
                    &&& final(self).last_error == Some(e)
                    &&& final(self).logged(*old(self), "[[Error]] 保存配置失败: "@ + e@)
                },
            },
    {
        match outcome {
            SaveOutcome::Saved => {
                self.config_dirty = false;
                self.last_error = None;
                self.push_log(String::from_str("[[Info]] 配置已保存"));
                true
            },
            SaveOutcome::DirectoryFailed(e) => {
                let line = joined("[[Error]] 创建目录失败: ", e.as_str());
                self.last_error = Some(e);
                self.push_log(line);
                false
            },
            SaveOutcome::WriteFailed(e) => {
                let line = joined("[[Error]] 保存配置失败: ", e.as_str());
                self.last_error = Some(e);
                self.push_log(line);
                false
            },
        }
    }

    /// The first step of a start: refused with a warning while frpc runs,
    /// then a save when the configuration has unsaved edits.
    pub fn begin_start(&mut self, running: bool) -> (r: StartStep)
        ensures
            final(self).same_layout(*old(self)),
            final(self).same_config(*old(self)),
            final(self).same_status(*old(self)),
            running ==> match r {
                StartStep::AlreadyRunning(n) => is_notice(n, NoticeLevel::Warning, "frpc 已在运行"@),
                _ => false,
            },
            running ==> final(self).logged(*old(self), "[[Info]] frpc 已在运行"@),
            !running ==> final(self).same_logs(*old(self)),
            !running && old(self).config_dirty ==> r is SaveFirst,
            !running && !old(self).config_dirty ==> r is Ready,
    {
        if running {
            self.push_log(String::from_str("[[Info]] frpc 已在运行"));
            return StartStep::AlreadyRunning(notice(NoticeLevel::Warning, "frpc 已在运行"));
        }
        if self.config_dirty {
            StartStep::SaveFirst
        } else {
            StartStep::Ready
        }
    }

    /// The file checks of a start: the executable must exist, then the
    /// configuration file. A missing file is recorded as the last error,
    /// logged with its shown path, and returned as a failure notice;
    /// `None` means the start may go on.
    pub fn check_start_paths(
        &mut self,
        exe_exists: bool,
        exe_shown: &str,
        config_exists: bool,
        config_shown: &str,
    ) -> (r: Option<Notice>)
        ensures
            final(self).same_layout(*old(self)),
            final(self).same_config(*old(self)),
            final(self).last_exit_code == old(self).last_exit_code,
            !exe_exists ==> {
                &&& r is Some && is_notice(r->0, NoticeLevel::Failure, "找不到 frpc.exe"@)
                &&& final(self).last_error matches Some(e) && e@ == "找不到 frpc.exe"@
                &&& final(self).logged(*old(self), "[[Error]] 找不到 frpc.exe: "@ + exe_shown@)
            },
            exe_exists && !config_exists ==> {
                &&& r is Some && is_notice(r->0, NoticeLevel::Failure, "找不到 frpc.toml"@)
                &&& final(self).last_error matches Some(e) && e@ == "找不到 frpc.toml"@
                &&& final(self).logged(*old(self), "[[Error]] 找不到 frpc.toml: "@ + config_shown@)
            },
            exe_exists && config_exists ==> {
                &&& r is None
                &&& final(self).same_status(*old(self))
                &&& final(self).same_logs(*old(self))
            },
    {
        if !exe_exists {
            self.last_error = Some(String::from_str("找不到 frpc.exe"));
            self.push_log(joined("[[Error]] 找不到 frpc.exe: ", exe_shown));
            return Some(notice(NoticeLevel::Failure, "找不到 frpc.exe"));
        }
        if !config_exists {
            self.last_error = Some(String::from_str("找不到 frpc.toml"));
            self.push_log(joined("[[Error]] 找不到 frpc.toml: ", config_shown));
            return Some(notice(NoticeLevel::Failure, "找不到 frpc.toml"));
        }
        None
    }

    /// Takes the outcome of starting the child process. On success the last
    /// exit code and error are cleared; on failure the error is kept. The
    /// returned notice tells the user which.
    pub fn finish_spawn(&mut self, outcome: Result<(), String>, exe_shown: &str) -> (r: Notice)
        ensures
            final(self).same_layout(*old(self)),
            final(self).same_config(*old(self)),
            match outcome {
                Ok(()) => {
                    &&& final(self).last_exit_code is None
                    &&& final(self).last_error is None
                    &&& final(self).logged(*old(self), "[[Info]] 已启动: "@ + exe_shown@)
                    &&& is_notice(r, NoticeLevel::Success, "frpc 已启动"@)
                },
                Err(e) => {
                    &&& final(self).last_exit_code == old(self).last_exit_code
                    &&& final(self).last_error == Some(e)
                    &&& final(self).logged(*old(self), "[[Error]] 启动失败: "@ + e@)
                    &&& is_notice(r, NoticeLevel::Failure, "启动失败"@)
                },
            },
    {
        match outcome {
            Ok(()) => {
                self.last_exit_code = None;
                self.last_error = None;
                self.push_log(joined("[[Info]] 已启动: ", exe_shown));
                notice(NoticeLevel::Success, "frpc 已启动")
            },
            Err(e) => {
                let line = joined("[[Error]] 启动失败: ", e.as_str());
                self.last_error = Some(e);
                self.push_log(line);
                notice(NoticeLevel::Failure, "启动失败")
            },
        }
    }

    /// Takes the outcome of asking the child to stop: logs it and returns
    /// the notice for the user.
    pub fn finish_stop(&mut self, outcome: StopOutcome) -> (r: Notice)
        ensures
            final(self).same_layout(*old(self)),
            final(self).same_config(*old(self)),
            final(self).same_status(*old(self)),
            match outcome {
                StopOutcome::Stopped => {
                    &&& final(self).logged(*old(self), "[[Info]] 已发送停止信号"@)
                    &&& is_notice(r, NoticeLevel::Info, "已发送停止"@)
                },
                StopOutcome::NotRunning => {
                    &&& final(self).logged(*old(self), "[[Info]] frpc 未在运行"@)
                    &&& is_notice(r, NoticeLevel::Warning, "未在运行"@)
                },
                StopOutcome::Failed(e) => {
                    &&& final(self).logged(*old(self), "[[Error]] 停止失败: "@ + e@)
                    &&& is_notice(r, NoticeLevel::Failure, "停止失败"@)
                },
            },
    {
        match outcome {
            StopOutcome::Stopped => {
                self.push_log(String::from_str("[[Info]] 已发送停止信号"));
                notice(NoticeLevel::Info, "已发送停止")
            },
            StopOutcome::NotRunning => {
                self.push_log(String::from_str("[[Info]] frpc 未在运行"));
                notice(NoticeLevel::Warning, "未在运行")
            },
            StopOutcome::Failed(e) => {
                self.push_log(joined("[[Error]] 停止失败: ", e.as_str()));
                notice(NoticeLevel::Failure, "停止失败")
            },
        }
    }

    /// Takes what polling the child found. An exit records the exit code
    /// and logs it; a polling failure is logged. Returns whether the child
    /// is gone, so that its handle should be dropped.
    pub fn finish_poll(&mut self, outcome: PollOutcome) -> (gone: bool)
        ensures
            gone == !(outcome is StillRunning),
            final(self).same_layout(*old(self)),
            final(self).same_config(*old(self)),
            final(self).last_error == old(self).last_error,
            match outcome {
                PollOutcome::StillRunning => {
                    &&& final(self).last_exit_code == old(self).last_exit_code
                    &&& final(self).same_logs(*old(self))
                },
                PollOutcome::Exited(code) => {
                    &&& final(self).last_exit_code == code
                    &&& final(self).logged(*old(self), exit_log_line(code))
                },
                PollOutcome::Failed(e) => {
                    &&& final(self).last_exit_code == old(self).last_exit_code
                    &&& final(self).logged(*old(self), "[[Error]] 轮询进程状态失败: "@ + e@)
                },
            },
    {
        match outcome {
            PollOutcome::StillRunning => false,
            PollOutcome::Exited(code) => {
                self.last_exit_code = code;
                self.push_log(format_exit_line(code));
                true
            },
            PollOutcome::Failed(e) => {
                self.push_log(joined("[[Error]] 轮询进程状态失败: ", e.as_str()));
                true
            },
        }
    }

    /// Logs an event from the child's output readers.
    pub fn record_event(&mut self, event: &LogEvent)
        ensures
            final(self).logged(*old(self), event_log_line(*event)),
            final(self).same_layout(*old(self)),
            final(self).same_config(*old(self)),
            final(self).same_status(*old(self)),
    {
        let line = format_log_event(event);
        self.push_log(line);
    }

    /// Takes the outcome of saving the log to a file: the shown path it was
    /// written to, or the error.
    pub fn finish_save_logs(&mut self, outcome: Result<String, String>)
        ensures
            final(self).same_layout(*old(self)),
            final(self).same_config(*old(self)),
            final(self).same_status(*old(self)),
            match outcome {
                Ok(path) => final(self).logged(*old(self), "[[Info]] 日志已保存到 "@ + path@),
                Err(e) => final(self).logged(*old(self), "[[Error]] 保存日志失败: "@ + e@),
            },
    {
        match outcome {
            Ok(path) => self.push_log(joined("[[Info]] 日志已保存到 ", path.as_str())),
            Err(e) => self.push_log(joined("[[Error]] 保存日志失败: ", e.as_str())),
        }
    }

    /// Whether the configuration text is valid TOML, with the parser's
    /// message when it is not.
    pub fn config_parse_status(&self) -> (r: Result<(), String>)
        ensures
            match toml_document(self.config_text@) {
                Ok(_) => r is Ok,
                Err(msg) => r is Err && r->Err_0@ == msg,
            },
    {
        match parse_toml(self.config_text.as_str()) {
            Ok(_) => Ok(()),
            Err(e) => Err(e),
        }
    }

    /// Uses `candidate_shown` as the configuration path when the current one
    /// is blank or still the default; otherwise keeps it.
    pub fn autofill_config_path(&mut self, candidate_shown: String)
        ensures
            ({
                let current = trimmed(old(self).config_path@);
                if current.len() == 0 || current == default_config_path() {
                    final(self).config_path@ == candidate_shown@
                } else {
                    final(self).config_path@ == old(self).config_path@
                }
            }),
            final(self).frpc_exe_path@ == old(self).frpc_exe_path@,
            final(self).main_tab == old(self).main_tab,
            final(self).main_tab_scroll_gen == old(self).main_tab_scroll_gen,
            final(self).config_tab == old(self).config_tab,
            final(self).log_path@ == old(self).log_path@,
            final(self).same_config(*old(self)),
            final(self).same_status(*old(self)),
            final(self).same_logs(*old(self)),
    {
        let current = trim(self.config_path.as_str());
        if current.as_str().is_empty() || current == String::from_str("./frpc/frpc.toml") {
            self.config_path = candidate_shown;
        }
    }

    /// Shows `tab`. Switching to another page starts its scrolling afresh
    /// (the scroll generation moves on, wrapping); asking for the page shown
    /// changes nothing.
    pub fn select_main_tab(&mut self, tab: MainTab)
        ensures
            final(self).main_tab == tab,
            tab != old(self).main_tab ==> final(self).main_tab_scroll_gen == (if old(
                self,
            ).main_tab_scroll_gen == u64::MAX {
                0
            } else {
                (old(self).main_tab_scroll_gen + 1) as u64
            }),
            tab == old(self).main_tab ==> final(self).main_tab_scroll_gen
                == old(self).main_tab_scroll_gen,
            final(self).frpc_exe_path@ == old(self).frpc_exe_path@,
            final(self).config_path@ == old(self).config_path@,
            final(self).config_tab == old(self).config_tab,
            final(self).log_path@ == old(self).log_path@,
            final(self).same_config(*old(self)),
            final(self).same_status(*old(self)),
            final(self).same_logs(*old(self)),
    {
        if tab != self.main_tab {
            self.main_tab = tab;
            self.main_tab_scroll_gen = if self.main_tab_scroll_gen == u64::MAX {
                0
            } else {
                self.main_tab_scroll_gen + 1
            };
        }
    }

    /// Shows the simple or the advanced editor.
    pub fn select_config_tab(&mut self, tab: ConfigTab)
        ensures
            final(self).config_tab == tab,
            final(self).frpc_exe_path@ == old(self).frpc_exe_path@,
            final(self).config_path@ == old(self).config_path@,
            final(self).main_tab == old(self).main_tab,
            final(self).main_tab_scroll_gen == old(self).main_tab_scroll_gen,
            final(self).log_path@ == old(self).log_path@,
            final(self).same_config(*old(self)),
            final(self).same_status(*old(self)),
            final(self).same_logs(*old(self)),
    {
        self.config_tab = tab;
    }

    /// Empties the log.
    pub fn clear_logs(&mut self)
        ensures
            final(self).logs.contents() == Seq::<Seq<char>>::empty(),
            final(self).logs.limit() == old(self).logs.limit(),
            final(self).same_layout(*old(self)),
            final(self).same_config(*old(self)),
            final(self).same_status(*old(self)),
    {
        self.logs.clear();
    }
}

/// The chips of the top bar, in order: name and version; the author when
/// not blank; the last exit code when there is one; the last error when
/// there is one.
pub open spec fn status_chip_texts(
    info: AppInfo,
    last_exit_code: Option<i32>,
    last_error: Option<String>,
) -> Seq<Seq<char>> {
    let base = seq![info.software.name@ + " "@ + info.software.version@];
    let with_author = if is_blank(info.author.name@) {
        base
    } else {
        base.push("作者: "@ + info.author.name@)
    };
    let with_code = match last_exit_code {
        Some(c) => with_author.push("上次退出码: "@ + decimal(c as int)),
        None => with_author,
    };
    match last_error {
        Some(e) => with_code.push("错误: "@ + e@),
        None => with_code,
    }
}

impl LauncherState {
    /// The chips of the top bar for this state.
    pub fn status_chips(&self, info: &AppInfo) -> (r: Vec<String>)
        ensures
            r@.map_values(|s: String| s@) == status_chip_texts(
                *info,
                self.last_exit_code,
                self.last_error,
            ),
    {
        let mut chips: Vec<String> = Vec::new();
        chips.push(info.window_title());
        if is_filled(info.author.name.as_str()) {
            chips.push(joined("作者: ", info.author.name.as_str()));
        }
        match self.last_exit_code {
            Some(c) => chips.push(joined("上次退出码: ", format_i64(c as i64).as_str())),
            None => {},
        }
        match &self.last_error {
            Some(e) => chips.push(joined("错误: ", e.as_str())),
            None => {},
        }
        proof {
            assert(chips@.map_values(|s: String| s@) =~= status_chip_texts(
                *info,
                self.last_exit_code,
                self.last_error,
            ));
        }
        chips
    }
}

} // verus!
