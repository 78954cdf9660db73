//! Modal sheets and the form rows inside them.
use crate::icon::{IconColor, IconName, Paint};
use crate::text::maybe;
use vstd::prelude::*;

verus! {

/// The width of a sheet nobody has set, in points.
pub const SHEET_WIDTH: u32 = 440;

/// The width of the column of labels, in points.
pub const LABEL_WIDTH: u32 = 104;

/// A modal card.
#[derive(Debug)]
pub struct Sheet {
    pub title: String,
    pub subtitle: Option<String>,
    pub width: u32,
    /// How many things stand in its body.
    pub body: usize,
    /// How many things stand at the start of its footer.
    pub footer_start: usize,
    /// How many things stand at the end of its footer.
    pub footer_end: usize,
}

impl Sheet {
    /// A sheet with nothing on it.
    pub fn new(title: &str) -> (sheet: Sheet)
        ensures
            sheet.title@ == title@,
            sheet == (Sheet {
                title: sheet.title,
                subtitle: None,
                width: SHEET_WIDTH,
                body: 0,
                footer_start: 0,
                footer_end: 0,
            }),
    {
        Sheet {
            title: title.to_owned(),
            subtitle: None,
            width: SHEET_WIDTH,
            body: 0,
            footer_start: 0,
            footer_end: 0,
        }
    }

    /// With a line under its title.
    pub fn subtitle(self, subtitle: &str) -> (sheet: Sheet)
        ensures
            maybe(sheet.subtitle) == Some(subtitle@),
            sheet == (Sheet { subtitle: sheet.subtitle, ..self }),
    {
        Sheet { subtitle: Some(subtitle.to_owned()), ..self }
    }

    /// Of another width.
    pub fn width(self, width: u32) -> (sheet: Sheet)
        ensures
            sheet == (Sheet { width, ..self }),
    {
        Sheet { width, ..self }
    }

    /// Whether there is a footer: where there is anything to stand in it.
    pub fn has_footer(&self) -> (answer: bool)
        ensures
            answer == (self.footer_start > 0 || self.footer_end > 0),
    {
        self.footer_start > 0 || self.footer_end > 0
    }
}

/// A labelled control.
#[derive(Debug)]
pub struct FormRow {
    pub label: String,
    pub hint: Option<String>,
    pub error: Option<String>,
    /// Whether the label is centred against the control.
    pub plain: bool,
}

/// What stands under a control: what is wrong with it, before what it is for.
pub open spec fn note_of(row: FormRow) -> Option<(Seq<char>, IconColor)> {
    match maybe(row.error) {
        Some(text) => Some((text, IconColor::Custom(Paint::Danger))),
        None => match maybe(row.hint) {
            Some(text) => Some((text, IconColor::Subtle)),
            None => None,
        },
    }
}

/// A note, as a value.
pub open spec fn note_view(note: Option<(String, IconColor)>) -> Option<(Seq<char>, IconColor)> {
    match note {
        Some(note) => Some((note.0@, note.1)),
        None => None,
    }
}

impl FormRow {
    /// A row with nothing to say under its control.
    pub fn new(label: &str) -> (row: FormRow)
        ensures
            row.label@ == label@,
            row == (FormRow { label: row.label, hint: None, error: None, plain: false }),
    {
        FormRow { label: label.to_owned(), hint: None, error: None, plain: false }
    }

    /// One whose control is a line of text.
    pub fn plain(self) -> (row: FormRow)
        ensures
            row == (FormRow { plain: true, ..self }),
    {
        FormRow { plain: true, ..self }
    }

    /// With a line on what the control is for. An empty hint is no hint: it
    /// would take a line under the control and leave it blank.
    pub fn hint(self, hint: &str) -> (row: FormRow)
        ensures
            maybe(row.hint) == if hint@.len() == 0 {
                None
            } else {
                Some(hint@)
            },
            row == (FormRow { hint: row.hint, ..self }),
    {
        let hint = if hint.unicode_len() == 0 {
            None
        } else {
            Some(hint.to_owned())
        };
        FormRow { hint, ..self }
    }

    /// With what is wrong with what is in the control.
    pub fn error(self, error: &str) -> (row: FormRow)
        ensures
            maybe(row.error) == Some(error@),
            row == (FormRow { error: row.error, ..self }),
    {
        FormRow { error: Some(error.to_owned()), ..self }
    }

    /// What stands under the control.
    pub fn note(&self) -> (note: Option<(String, IconColor)>)
        ensures
            note_view(note) == note_of(*self),
    {
        match &self.error {
            Some(text) => Some((text.clone(), IconColor::Custom(Paint::Danger))),
            None => match &self.hint {
                Some(text) => Some((text.clone(), IconColor::Subtle)),
                None => None,
            },
        }
    }
}

/// How grave a notice is.
#[derive(Clone, Copy, PartialEq, Eq, Structural, Debug)]
pub enum NoticeTone {
    Info,
    Success,
    Warning,
    Danger,
}

/// A notice as it is drawn.
#[derive(Clone, Copy, PartialEq, Eq, Structural, Debug)]
pub struct NoticeFace {
    pub ink: Paint,
    pub wash: Paint,
    pub icon: IconName,
}

/// A notice of a tone as it is drawn.
pub open spec fn notice_face(tone: NoticeTone) -> NoticeFace {
    match tone {
        NoticeTone::Info => NoticeFace {
            ink: Paint::Info,
            wash: Paint::InfoWash,
            icon: IconName::CircleInfo,
        },
        NoticeTone::Success => NoticeFace {
            ink: Paint::Success,
            wash: Paint::SuccessWash,
            icon: IconName::CircleCheck,
        },
        NoticeTone::Warning => NoticeFace {
            ink: Paint::Warning,
            wash: Paint::WarningWash,
            icon: IconName::Warning,
        },
        NoticeTone::Danger => NoticeFace {
            ink: Paint::Danger,
            wash: Paint::DangerWash,
            icon: IconName::CircleXmark,
        },
    }
}

/// A sentence in a box of its own.
#[derive(Debug)]
pub struct Notice {
    pub tone: NoticeTone,
    pub message: String,
    pub detail: Option<String>,
}

impl Notice {
    /// A notice of one sentence.
    pub fn new(tone: NoticeTone, message: &str) -> (notice: Notice)
        ensures
            notice.message@ == message@,
            notice == (Notice { tone, message: notice.message, detail: None }),
    {
        Notice { tone, message: message.to_owned(), detail: None }
    }

    /// With a second sentence.
    pub fn detail(self, detail: &str) -> (notice: Notice)
        ensures
            maybe(notice.detail) == Some(detail@),
            notice == (Notice { detail: notice.detail, ..self }),
    {
        Notice { detail: Some(detail.to_owned()), ..self }
    }

    /// The notice as it is drawn.
    pub fn render(&self) -> (face: NoticeFace)
        ensures
            face == notice_face(self.tone),
    {
        match self.tone {
            NoticeTone::Info => NoticeFace {
                ink: Paint::Info,
                wash: Paint::InfoWash,
                icon: IconName::CircleInfo,
            },
            NoticeTone::Success => NoticeFace {
                ink: Paint::Success,
                wash: Paint::SuccessWash,
                icon: IconName::CircleCheck,
            },
            NoticeTone::Warning => NoticeFace {
                ink: Paint::Warning,
                wash: Paint::WarningWash,
                icon: IconName::Warning,
            },
            NoticeTone::Danger => NoticeFace {
                ink: Paint::Danger,
                wash: Paint::DangerWash,
                icon: IconName::CircleXmark,
            },
        }
    }
}

} // verus!
