//! The rows of the palette: what each does, and how it reads.
use crate::commands::{offers, Command, Offer, OfferView};
use crate::icon::IconName;
use crate::lists::{group_views, views};
use crate::text::maybe;
use crate::tree::NodeKind;
use crate::window::Workspace;
use vstd::prelude::*;

verus! {

broadcast use group_views;

/// How a row of the palette reads.
#[derive(Debug)]
pub struct PaletteFace {
    pub title: String,
    pub icon: IconName,
    /// What is said beside the title.
    pub detail: Option<String>,
    /// The key that does the same.
    pub shortcut: Option<String>,
}

/// How a row of the palette reads, as a value.
pub struct FaceView {
    pub title: Seq<char>,
    pub icon: IconName,
    pub detail: Option<Seq<char>>,
    pub shortcut: Option<Seq<char>>,
}

impl View for PaletteFace {
    type V = FaceView;

    open spec fn view(&self) -> FaceView {
        FaceView {
            title: self.title@,
            icon: self.icon,
            detail: maybe(self.detail),
            shortcut: maybe(self.shortcut),
        }
    }
}

/// A row of the palette. A command reads as it does everywhere else, so its
/// row carries no face of its own.
#[derive(Debug)]
pub struct PaletteItem {
    pub offer: Offer,
    pub face: Option<PaletteFace>,
}

/// A row of the palette, as a value.
pub struct PaletteRow {
    pub offer: OfferView,
    pub face: Option<FaceView>,
}

impl View for PaletteItem {
    type V = PaletteRow;

    open spec fn view(&self) -> PaletteRow {
        PaletteRow {
            offer: self.offer@,
            face: match self.face {
                Some(face) => Some(face@),
                None => None,
            },
        }
    }
}

/// The icon of an object.
pub open spec fn object_icon(kind: NodeKind) -> IconName {
    match kind {
        NodeKind::View => IconName::Eye,
        NodeKind::MaterializedView => IconName::Layers,
        _ => IconName::Table,
    }
}

/// How an offer reads: a mode with the prefix that enters it, an object with
/// its schema, and a saved query with a word that says so.
pub open spec fn face_of(offer: OfferView) -> Option<FaceView> {
    match offer {
        OfferView::Command(_) => None,
        OfferView::Themes => Some(
            FaceView {
                title: "Change Theme…"@,
                icon: IconName::Sun,
                detail: None,
                shortcut: Some("#"@),
            },
        ),
        OfferView::Line => Some(
            FaceView {
                title: "Go to Line…"@,
                icon: IconName::Hashtag,
                detail: None,
                shortcut: Some(":"@),
            },
        ),
        OfferView::Object { relation, kind, name } => Some(
            FaceView {
                title: name,
                icon: object_icon(kind),
                detail: Some(relation.0),
                shortcut: None,
            },
        ),
        OfferView::Query { id: _, name } => Some(
            FaceView {
                title: name,
                icon: IconName::Code,
                detail: Some("saved"@),
                shortcut: None,
            },
        ),
    }
}

/// The rows of some offers.
pub open spec fn palette_rows(offers: Seq<OfferView>) -> Seq<PaletteRow> {
    Seq::new(offers.len(), |i: int| PaletteRow { offer: offers[i], face: face_of(offers[i]) })
}

impl Offer {
    /// How the offer reads.
    pub fn face(&self) -> (face: Option<PaletteFace>)
        ensures
            match face {
                Some(face) => face_of(self@) == Some(face@),
                None => face_of(self@) is None,
            },
    {
        match self {
            Offer::Command(_) => None,
            Offer::Themes => Some(
                PaletteFace {
                    title: "Change Theme…".to_owned(),
                    icon: IconName::Sun,
                    detail: None,
                    shortcut: Some("#".to_owned()),
                },
            ),
            Offer::Line => Some(
                PaletteFace {
                    title: "Go to Line…".to_owned(),
                    icon: IconName::Hashtag,
                    detail: None,
                    shortcut: Some(":".to_owned()),
                },
            ),
            Offer::Object { relation, kind, name } => Some(
                PaletteFace {
                    title: name.clone(),
                    icon: match kind {
                        NodeKind::View => IconName::Eye,
                        NodeKind::MaterializedView => IconName::Layers,
                        _ => IconName::Table,
                    },
                    detail: Some(relation.schema.clone()),
                    shortcut: None,
                },
            ),
            Offer::Query { id: _, name } => Some(
                PaletteFace {
                    title: name.clone(),
                    icon: IconName::Code,
                    detail: Some("saved".to_owned()),
                    shortcut: None,
                },
            ),
        }
    }
}

impl Workspace {
    /// Everything the palette can offer, in the order it offers it, each with
    /// how it reads.
    pub fn palette_items(&self, commands: &Vec<Command>) -> (items: Vec<PaletteItem>)
        ensures
            views(items@) == palette_rows(offers(self@, commands@)),
    {
        let all = self.offers(commands);
        let ghost whole = all@;
        let ghost rows = palette_rows(views(whole));
        let mut items: Vec<PaletteItem> = Vec::new();
        assert(views(items@) =~= rows.take(0));
        for offer in rest: all
            invariant
                rest.seq() == whole,
                rows == palette_rows(views(whole)),
                views(items@) == rows.take(rest.index() as int),
        {
            let ghost had = views(items@);
            let ghost at = rest.index() as int;
            assert(views(whole)[at] == offer@);
            let face = offer.face();
            items.push(PaletteItem { offer, face });
            assert(items@.last()@ == rows[at]);
            assert(views(items@) =~= had.push(rows[at]));
            assert(views(items@) =~= rows.take(at + 1));
        }
        assert(rows.take(whole.len() as int) =~= rows);
        items
    }
}

} // verus!
