//! Which of the bundled files are asked for.
use crate::text::{ends, ends_with, starts, starts_with, texts};
use vstd::prelude::*;

verus! {

/// The files bundled with the program, by their paths.
pub struct Assets {
    pub paths: Vec<String>,
}

/// The paths that start with another, in order.
pub open spec fn under_path(paths: Seq<Seq<char>>, path: Seq<char>) -> Seq<Seq<char>>
    decreases paths.len(),
{
    if paths.len() == 0 {
        Seq::empty()
    } else {
        let before = under_path(paths.drop_last(), path);
        if starts(paths.last(), path) {
            before.push(paths.last())
        } else {
            before
        }
    }
}

impl Assets {
    /// The bundled files under a path.
    pub fn list(&self, path: &str) -> (found: Vec<String>)
        ensures
            texts(found@) == under_path(texts(self.paths@), path@),
    {
        let ghost all = texts(self.paths@);
        let mut found: Vec<String> = Vec::new();
        let mut at: usize = 0;
        assert(texts(found@) =~= under_path(all.take(0), path@));
        while at < self.paths.len()
            invariant
                at <= self.paths@.len(),
                all == texts(self.paths@),
                texts(found@) == under_path(all.take(at as int), path@),
            decreases self.paths@.len() - at,
        {
            let ghost had = texts(found@);
            assert(all.take(at + 1).drop_last() =~= all.take(at as int));
            if starts_with(self.paths[at].as_str(), path) {
                found.push(self.paths[at].clone());
                assert(texts(found@) =~= had.push(self.paths@[at as int]@));
            }
            at += 1;
        }
        assert(all.take(at as int) =~= all);
        found
    }
}

/// Whether a path is that of a theme.
pub open spec fn is_theme(path: Seq<char>) -> bool {
    starts(path, "themes/"@) && ends(path, ".json"@)
}

/// Bundled files, as values.
pub open spec fn contents(files: Seq<(String, Vec<u8>)>) -> Seq<(Seq<char>, Seq<u8>)> {
    Seq::new(files.len(), |i: int| (files[i].0@, files[i].1@))
}

/// The files that are themes, in order.
pub open spec fn themes_in(files: Seq<(Seq<char>, Seq<u8>)>) -> Seq<(Seq<char>, Seq<u8>)>
    decreases files.len(),
{
    if files.len() == 0 {
        Seq::empty()
    } else {
        let before = themes_in(files.drop_last());
        if is_theme(files.last().0) {
            before.push(files.last())
        } else {
            before
        }
    }
}

/// The theme files among the bundled ones, each with its path.
pub fn bundled_themes(files: Vec<(String, Vec<u8>)>) -> (themes: Vec<(String, Vec<u8>)>)
    ensures
        contents(themes@) == themes_in(contents(files@)),
{
    let ghost whole = files@;
    let ghost all = contents(files@);
    let mut rest = files;
    let mut themes: Vec<(String, Vec<u8>)> = Vec::new();
    let mut taken: usize = 0;
    let count = rest.len();
    assert(contents(themes@) =~= themes_in(all.take(0)));
    assert(rest@ =~= whole.skip(0));
    while rest.len() > 0
        invariant
            taken <= count,
            count == whole.len(),
            all == contents(whole),
            rest@ == whole.skip(taken as int),
            contents(themes@) == themes_in(all.take(taken as int)),
        decreases rest@.len(),
    {
        let ghost had = contents(themes@);
        let file = rest.remove(0);
        assert(file == whole[taken as int]);
        assert(rest@ =~= whole.skip(taken + 1));
        assert(all.take(taken + 1).drop_last() =~= all.take(taken as int));
        if starts_with(file.0.as_str(), "themes/") && ends_with(file.0.as_str(), ".json") {
            themes.push(file);
            assert(contents(themes@) =~= had.push(all[taken as int]));
        }
        taken += 1;
    }
    assert(all.take(taken as int) =~= all);
    themes
}

} // verus!
