//! What the launcher shows about itself: software and author details,
//! with the defaults used when no description file is found.
use vstd::prelude::*;
use crate::text::{is_blank, trim};

verus! {

/// Name, version, description and homepage of the software.
#[derive(Clone, Debug)]
pub struct SoftwareInfo {
    pub name: String,
    pub version: String,
    pub description: String,
    pub homepage: String,
}

/// Name, short biography and contact of the author.
#[derive(Clone, Debug)]
pub struct AuthorInfo {
    pub name: String,
    pub bio: String,
    pub contact: String,
}

/// Everything the about page and the window title draw on.
#[derive(Clone, Debug)]
pub struct AppInfo {
    pub software: SoftwareInfo,
    pub author: AuthorInfo,
}

impl Default for SoftwareInfo {
    fn default() -> (r: Self)
        ensures
            r.name@ == "Bad frpc Launcher"@,
            r.version@ == "0.1.0"@,
            r.description@ == "frpc GUI 启动器"@,
            r.homepage@ == Seq::<char>::empty(),
    {
        SoftwareInfo {
            name: String::from_str("Bad frpc Launcher"),
            version: String::from_str("0.1.0"),
            description: String::from_str("frpc GUI 启动器"),
            homepage: String::new(),
        }
    }
}

impl Default for AuthorInfo {
    fn default() -> (r: Self)
        ensures
            r.name@ == "Unknown"@,
            r.bio@ == Seq::<char>::empty(),
            r.contact@ == Seq::<char>::empty(),
    {
        AuthorInfo { name: String::from_str("Unknown"), bio: String::new(), contact: String::new() }
    }
}

impl Default for AppInfo {
    fn default() -> (r: Self)
        ensures
            r.software.name@ == "Bad frpc Launcher"@,
            r.software.version@ == "0.1.0"@,
            r.software.description@ == "frpc GUI 启动器"@,
            r.software.homepage@ == Seq::<char>::empty(),
            r.author.name@ == "Unknown"@,
            r.author.bio@ == Seq::<char>::empty(),
            r.author.contact@ == Seq::<char>::empty(),
    {
        AppInfo { software: SoftwareInfo::default(), author: AuthorInfo::default() }
    }
}

impl AppInfo {
    /// The window title: the software's name, a space, and its version.
    pub fn window_title(&self) -> (r: String)
        ensures
            r@ == self.software.name@ + " "@ + self.software.version@,
    {
        let mut out = self.software.name.clone();
        out.append(" ");
        out.append(self.software.version.as_str());
        out
    }
}

/// The text lines of the about page. Optional lines are shown only when
/// their field is not blank.
pub struct AboutText {
    pub title: String,
    pub version_line: String,
    pub description: Option<String>,
    pub author_line: String,
    pub bio_line: Option<String>,
    pub contact_line: Option<String>,
    pub homepage: Option<String>,
}

/// `prefix` and `text`, shown when `text` is not blank.
pub open spec fn shown_if_filled(prefix: Seq<char>, text: Seq<char>) -> Option<Seq<char>> {
    if is_blank(text) {
        None
    } else {
        Some(prefix + text)
    }
}

/// The text of an optional line.
pub open spec fn line_text(line: Option<String>) -> Option<Seq<char>> {
    match line {
        Some(s) => Some(s@),
        None => None,
    }
}

/// Whether `s` has anything but whitespace.
pub fn is_filled(s: &str) -> (r: bool)
    ensures
        r == !is_blank(s@),
{
    !trim(s).as_str().is_empty()
}

fn filled_line(prefix: &str, text: &String) -> (r: Option<String>)
    ensures
        line_text(r) == shown_if_filled(prefix@, text@),
{
    if is_filled(text.as_str()) {
        let mut out = String::from_str(prefix);
        out.append(text.as_str());
        Some(out)
    } else {
        None
    }
}

impl AppInfo {
    /// The lines of the about page: name, `版本` and version, the
    /// description, `作者: ` and the author, then `说明: ` with the bio,
    /// `联系方式: ` with the contact and the homepage, the last four only when
    /// not blank.
    pub fn about_text(&self) -> (r: AboutText)
        ensures
            r.title@ == self.software.name@,
            r.version_line@ == "版本 "@ + self.software.version@,
            line_text(r.description) == shown_if_filled(Seq::empty(), self.software.description@),
            r.author_line@ == "作者: "@ + self.author.name@,
            line_text(r.bio_line) == shown_if_filled("说明: "@, self.author.bio@),
            line_text(r.contact_line) == shown_if_filled("联系方式: "@, self.author.contact@),
            line_text(r.homepage) == shown_if_filled(Seq::empty(), self.software.homepage@),
    {
        let mut version_line = String::from_str("版本 ");
        version_line.append(self.software.version.as_str());
        let mut author_line = String::from_str("作者: ");
        author_line.append(self.author.name.as_str());
        proof {
            assert(Seq::<char>::empty() + self.software.description@ == self.software.description@);
            assert(Seq::<char>::empty() + self.software.homepage@ == self.software.homepage@);
        }
        let description = if is_filled(self.software.description.as_str()) {
            Some(self.software.description.clone())
        } else {
            None
        };
        let homepage = if is_filled(self.software.homepage.as_str()) {
            Some(self.software.homepage.clone())
        } else {
            None
        };
        AboutText {
            title: self.software.name.clone(),
            version_line,
            description,
            author_line,
            bio_line: filled_line("说明: ", &self.author.bio),
            contact_line: filled_line("联系方式: ", &self.author.contact),
            homepage,
        }
    }
}

} // verus!
