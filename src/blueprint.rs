//! Console message formatting: ANSI colour codes around levels and messages.
use vstd::prelude::*;
use crate::text::string_of;

verus! {

/// The level of a console message.
#[derive(PartialEq, Eq, Structural, Clone, Copy)]
pub enum Level {
    Log,
    Failure,
    Warning,
    Report,
}

/// Formats the compiler's console messages.
pub struct Blueprint {
    bold_log_color: String,
    bold_error_color: String,
    bold_warning_color: String,
    bold_info_color: String,
    bold_title_color: String,
    bold_time_color: String,
    log_color: String,
    error_color: String,
    warning_color: String,
    info_color: String,
    bold: String,
    closing_style: String,
}

impl Blueprint {
    pub closed spec fn bold_log_color_code(&self) -> Seq<char> {
        self.bold_log_color@
    }

    pub closed spec fn bold_error_color_code(&self) -> Seq<char> {
        self.bold_error_color@
    }

    pub closed spec fn bold_warning_color_code(&self) -> Seq<char> {
        self.bold_warning_color@
    }

    pub closed spec fn bold_info_color_code(&self) -> Seq<char> {
        self.bold_info_color@
    }

    pub closed spec fn bold_title_color_code(&self) -> Seq<char> {
        self.bold_title_color@
    }

    pub closed spec fn bold_time_color_code(&self) -> Seq<char> {
        self.bold_time_color@
    }

    pub closed spec fn log_color_code(&self) -> Seq<char> {
        self.log_color@
    }

    pub closed spec fn error_color_code(&self) -> Seq<char> {
        self.error_color@
    }

    pub closed spec fn warning_color_code(&self) -> Seq<char> {
        self.warning_color@
    }

    pub closed spec fn info_color_code(&self) -> Seq<char> {
        self.info_color@
    }

    pub closed spec fn bold_code(&self) -> Seq<char> {
        self.bold@
    }

    pub closed spec fn closing_style_code(&self) -> Seq<char> {
        self.closing_style@
    }

    /// The standard palette.
    pub fn new() -> (r: Self)
        ensures
            r.bold_log_color_code() == seq!['\x1b', '[', '1', ';', '3', '8', ';', '5', ';', '1', '0', 'm'],
            r.bold_error_color_code() == seq!['\x1b', '[', '1', ';', '3', '8', ';', '5', ';', '9', 'm'],
            r.bold_warning_color_code() == seq!['\x1b', '[', '1', ';', '3', '8', ';', '5', ';', '1', '1', 'm'],
            r.bold_info_color_code() == seq!['\x1b', '[', '1', ';', '3', '8', ';', '5', ';', '2', '0', '7', 'm'],
            r.bold_title_color_code() == seq!['\x1b', '[', '1', ';', '3', '8', ';', '5', ';', '8', '2', 'm'],
            r.bold_time_color_code() == seq!['\x1b', '[', '1', ';', '3', '8', ';', '5', ';', '3', '3', 'm'],
            r.log_color_code() == seq!['\x1b', '[', '0', ';', '3', '2', 'm'],
            r.error_color_code() == seq!['\x1b', '[', '0', ';', '3', '1', 'm'],
            r.warning_color_code() == seq!['\x1b', '[', '0', ';', '3', '3', 'm'],
            r.info_color_code() == seq!['\x1b', '[', '0', ';', '3', '5', 'm'],
            r.bold_code() == seq!['\x1b', '[', '1', 'm'],
            r.closing_style_code() == seq!['\x1b', '[', '0', 'm'],
    {
        let bold_log_color = vec!['\x1b', '[', '1', ';', '3', '8', ';', '5', ';', '1', '0', 'm'];
        assert(bold_log_color@ =~= seq!['\x1b', '[', '1', ';', '3', '8', ';', '5', ';', '1', '0', 'm']);
        let bold_error_color = vec!['\x1b', '[', '1', ';', '3', '8', ';', '5', ';', '9', 'm'];
        assert(bold_error_color@ =~= seq!['\x1b', '[', '1', ';', '3', '8', ';', '5', ';', '9', 'm']);
        let bold_warning_color = vec!['\x1b', '[', '1', ';', '3', '8', ';', '5', ';', '1', '1', 'm'];
        assert(bold_warning_color@ =~= seq!['\x1b', '[', '1', ';', '3', '8', ';', '5', ';', '1', '1', 'm']);
        let bold_info_color = vec!['\x1b', '[', '1', ';', '3', '8', ';', '5', ';', '2', '0', '7', 'm'];
        assert(bold_info_color@ =~= seq!['\x1b', '[', '1', ';', '3', '8', ';', '5', ';', '2', '0', '7', 'm']);
        let bold_title_color = vec!['\x1b', '[', '1', ';', '3', '8', ';', '5', ';', '8', '2', 'm'];
        assert(bold_title_color@ =~= seq!['\x1b', '[', '1', ';', '3', '8', ';', '5', ';', '8', '2', 'm']);
        let bold_time_color = vec!['\x1b', '[', '1', ';', '3', '8', ';', '5', ';', '3', '3', 'm'];
        assert(bold_time_color@ =~= seq!['\x1b', '[', '1', ';', '3', '8', ';', '5', ';', '3', '3', 'm']);
        let log_color = vec!['\x1b', '[', '0', ';', '3', '2', 'm'];
        assert(log_color@ =~= seq!['\x1b', '[', '0', ';', '3', '2', 'm']);
        let error_color = vec!['\x1b', '[', '0', ';', '3', '1', 'm'];
        assert(error_color@ =~= seq!['\x1b', '[', '0', ';', '3', '1', 'm']);
        let warning_color = vec!['\x1b', '[', '0', ';', '3', '3', 'm'];
        assert(warning_color@ =~= seq!['\x1b', '[', '0', ';', '3', '3', 'm']);
        let info_color = vec!['\x1b', '[', '0', ';', '3', '5', 'm'];
        assert(info_color@ =~= seq!['\x1b', '[', '0', ';', '3', '5', 'm']);
        let bold = vec!['\x1b', '[', '1', 'm'];
        assert(bold@ =~= seq!['\x1b', '[', '1', 'm']);
        let closing_style = vec!['\x1b', '[', '0', 'm'];
        assert(closing_style@ =~= seq!['\x1b', '[', '0', 'm']);
        Blueprint {
            bold_log_color: string_of(&bold_log_color),
            bold_error_color: string_of(&bold_error_color),
            bold_warning_color: string_of(&bold_warning_color),
            bold_info_color: string_of(&bold_info_color),
            bold_title_color: string_of(&bold_title_color),
            bold_time_color: string_of(&bold_time_color),
            log_color: string_of(&log_color),
            error_color: string_of(&error_color),
            warning_color: string_of(&warning_color),
            info_color: string_of(&info_color),
            bold: string_of(&bold),
            closing_style: string_of(&closing_style),
        }
    }

    /// The message in bold.
    pub fn bold(&self, msg: String) -> (r: String)
        ensures
            r@ == self.bold_code() + msg@ + self.closing_style_code(),
    {
        let mut r = self.bold.clone();
        r.append(msg.as_str());
        r.append(self.closing_style.as_str());
        r
    }

    /// A time stamp in the time colour.
    pub fn timed(&self, stamp: &str) -> (r: String)
        ensures
            r@ == self.bold_time_color_code() + stamp@ + self.closing_style_code(),
    {
        let mut r = self.bold_time_color.clone();
        r.append(stamp);
        r.append(self.closing_style.as_str());
        r
    }

    /// The bullet colour and label colour of a level.
    pub open spec fn level_codes(&self, level: Level) -> (Seq<char>, Seq<char>) {
        match level {
            Level::Log => (self.bold_log_color_code(), self.log_color_code()),
            Level::Failure => (self.bold_error_color_code(), self.error_color_code()),
            Level::Warning => (self.bold_warning_color_code(), self.warning_color_code()),
            Level::Report => (self.bold_info_color_code(), self.info_color_code()),
        }
    }

    /// The label of a level.
    pub open spec fn level_label(level: Level) -> Seq<char> {
        match level {
            Level::Log => seq!['l', 'o', 'g', 'g', 'i', 'n', 'g'],
            Level::Failure => seq!['f', 'a', 'i', 'l', 'u', 'r', 'e'],
            Level::Warning => seq!['w', 'a', 'r', 'n', 'i', 'n', 'g'],
            Level::Report => seq!['r', 'e', 'p', 'o', 'r', 't', 's'],
        }
    }

    /// A console line: ` • {time} {label} {msg}`, with the level's colours.
    pub fn line(&self, level: Level, time: &str, msg: &str) -> (r: String)
        ensures
            r@ == seq![' '] + self.level_codes(level).0 + seq!['•'] + self.closing_style_code() + seq![' '] + time@
                + seq![' '] + self.level_codes(level).1 + Self::level_label(level) + self.closing_style_code()
                + seq![' '] + msg@,
    {
        let (bullet, label_color) = match level {
            Level::Log => (&self.bold_log_color, &self.log_color),
            Level::Failure => (&self.bold_error_color, &self.error_color),
            Level::Warning => (&self.bold_warning_color, &self.warning_color),
            Level::Report => (&self.bold_info_color, &self.info_color),
        };
        let label = match level {
            Level::Log => {
                let v = vec!['l', 'o', 'g', 'g', 'i', 'n', 'g'];
                assert(v@ =~= seq!['l', 'o', 'g', 'g', 'i', 'n', 'g']);
                v
            },
            Level::Failure => {
                let v = vec!['f', 'a', 'i', 'l', 'u', 'r', 'e'];
                assert(v@ =~= seq!['f', 'a', 'i', 'l', 'u', 'r', 'e']);
                v
            },
            Level::Warning => {
                let v = vec!['w', 'a', 'r', 'n', 'i', 'n', 'g'];
                assert(v@ =~= seq!['w', 'a', 'r', 'n', 'i', 'n', 'g']);
                v
            },
            Level::Report => {
                let v = vec!['r', 'e', 'p', 'o', 'r', 't', 's'];
                assert(v@ =~= seq!['r', 'e', 'p', 'o', 'r', 't', 's']);
                v
            },
        };
        let sp = vec![' '];
        assert(sp@ =~= seq![' ']);
        let dt = vec!['•'];
        assert(dt@ =~= seq!['•']);
        let space = string_of(&sp);
        let dot = string_of(&dt);
        let mut r = string_of(&sp);
        r.append(bullet.as_str());
        r.append(dot.as_str());
        r.append(self.closing_style.as_str());
        r.append(space.as_str());
        r.append(time);
        r.append(space.as_str());
        r.append(label_color.as_str());
        r.append(string_of(&label).as_str());
        r.append(self.closing_style.as_str());
        r.append(space.as_str());
        r.append(msg);
        assert(r@ =~= seq![' '] + bullet@ + seq!['•'] + self.closing_style_code() + seq![' '] + time@ + seq![' ']
            + label_color@ + label@ + self.closing_style_code() + seq![' '] + msg@);
        r
    }
}

} // verus!
