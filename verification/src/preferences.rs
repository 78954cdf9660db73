//! Putting the settings of a window into effect.
use crate::lists::group_views;
use crate::settings::{appearance_of, density_of, Appearance, Settings};
use crate::settings_window::{chosen, is_option, tab_size_of, Choice};
use crate::showing::group_showing;
use crate::text::maybe;
use crate::window::{
    group_window, lemma_same_frame, then_do, well_formed, Act, Effect, WindowView, Workspace,
};
use vstd::prelude::*;

verus! {

broadcast use {group_views, group_window, group_showing};

/// The appearance that is in effect: the one that was picked, and where none
/// was, the one on screen.
pub open spec fn appearance_in_effect(settings: Settings, shown: Appearance) -> Appearance {
    match appearance_of(maybe(settings.appearance)) {
        Some(appearance) => appearance,
        None => shown,
    }
}

/// What a pane's widgets carry themselves rather than reading off the theme.
pub open spec fn dressing(settings: Settings, pane: usize) -> Act {
    Act::Dress {
        pane,
        tab_size: tab_size_of(settings@),
        line_numbers: settings.line_numbers != Some(false),
        density: density_of(maybe(settings.row_density)),
        zebra: settings.zebra != Some(false),
    }
}

/// The first panes of a window given their settings.
pub open spec fn dressed(window: WindowView, count: int) -> WindowView
    decreases count,
{
    if count <= 0 {
        window
    } else {
        then_do(
            dressed(window, count - 1),
            dressing(window.settings, window.panes[count - 1].id),
        )
    }
}

/// Every setting put into effect, whatever it is: the theme, every pane and not
/// just the one in front, and then every window drawn again.
pub open spec fn settings_applied(window: WindowView, shown: Appearance) -> WindowView {
    let themed = then_do(window, Act::ShowTheme(appearance_in_effect(window.settings, shown)));
    then_do(then_do(dressed(themed, themed.panes.len() as int), Act::Refresh), Act::Notify)
}

/// An appearance shown without committing to it.
pub open spec fn appearance_previewed(
    window: WindowView,
    appearance: Appearance,
    shown: Appearance,
) -> WindowView {
    if appearance == shown {
        window
    } else {
        then_do(
            then_do(then_do(window, Act::ShowTheme(appearance)), Act::Refresh),
            Act::Notify,
        )
    }
}

/// Giving panes their settings moves none of them.
pub proof fn lemma_dressed(window: WindowView, count: int)
    requires
        0 <= count <= window.panes.len(),
    ensures
        dressed(window, count).panes == window.panes,
        dressed(window, count).settings == window.settings,
        well_formed(dressed(window, count)) == well_formed(window),
    decreases count,
{
    if count > 0 {
        lemma_dressed(window, count - 1);
    }
}

impl Workspace {
    /// Give a pane what its widgets carry themselves.
    pub fn dress_pane(&mut self, pane: usize)
        ensures
            final(self)@ == then_do(old(self)@, dressing(old(self)@.settings, pane)),
            final(self).panes == old(self).panes,
    {
        let tab_size = self.settings.tab_size();
        let line_numbers = self.settings.line_numbers();
        let density = self.settings.row_density();
        let zebra = self.settings.zebra();
        self.say(Effect::Dress { pane, tab_size, line_numbers, density, zebra });
    }

    /// Give every pane what its widgets carry themselves.
    pub fn dress_panes(&mut self)
        ensures
            final(self)@ == dressed(old(self)@, old(self)@.panes.len() as int),
            well_formed(final(self)@) == well_formed(old(self)@),
    {
        let ghost before = self@;
        let mut at: usize = 0;
        while at < self.panes.len()
            invariant
                at <= self.panes@.len(),
                self.panes@.len() == before.panes.len(),
                self@ == dressed(before, at as int),
            decreases self.panes@.len() - at,
        {
            proof {
                lemma_dressed(before, at as int);
            }
            assert(self@.panes[at as int] == self.panes@[at as int]@);
            let pane = self.panes[at].id;
            self.dress_pane(pane);
            at += 1;
        }
        proof {
            lemma_dressed(before, at as int);
        }
    }

    /// Put every setting into effect. `shown` is the appearance on screen.
    ///
    /// Called after a change and once at launch, so that what was saved and a
    /// freshly clicked switch cannot be interpreted differently.
    pub fn apply_settings(&mut self, shown: Appearance)
        requires
            well_formed(old(self)@),
        ensures
            final(self)@ == settings_applied(old(self)@, shown),
            well_formed(final(self)@),
    {
        let appearance = match self.settings.appearance() {
            Some(appearance) => appearance,
            None => shown,
        };
        self.say(Effect::ShowTheme(appearance));
        self.dress_panes();
        self.say(Effect::Refresh);
        self.say(Effect::Notify);
    }

    /// Change a setting, write it down and put it into effect. The one path: a
    /// knob that took effect without being saved would come back wrong, and one
    /// that saved without taking effect would look broken.
    pub fn update_settings(&mut self, choice: &Choice, shown: Appearance)
        requires
            well_formed(old(self)@),
            is_option(choice@),
        ensures
            final(self)@.settings@ == chosen(old(self)@.settings@, choice@, shown),
            final(self)@ == settings_applied(
                then_do(
                    (WindowView { settings: final(self)@.settings, ..old(self)@ }),
                    Act::SaveSettings,
                ),
                shown,
            ),
            well_formed(final(self)@),
    {
        self.settings.take_choice(choice, shown);
        let ghost changed = WindowView { settings: self.settings, ..old(self)@ };
        assert(self@ =~= changed);
        proof {
            lemma_same_frame(self@, old(self)@);
        }
        self.say(Effect::SaveSettings);
        let ghost saved = self@;
        self.apply_settings(shown);
        proof {
            let themed = then_do(
                saved,
                Act::ShowTheme(appearance_in_effect(saved.settings, shown)),
            );
            lemma_dressed(themed, themed.panes.len() as int);
        }
    }

    /// Pick an appearance and keep it.
    pub fn set_appearance(&mut self, appearance: Appearance, shown: Appearance)
        requires
            well_formed(old(self)@),
        ensures
            final(self)@.settings@ == chosen(
                old(self)@.settings@,
                crate::settings_window::ChoiceView::Appearance(appearance),
                shown,
            ),
            final(self)@ == settings_applied(
                then_do(
                    (WindowView { settings: final(self)@.settings, ..old(self)@ }),
                    Act::SaveSettings,
                ),
                shown,
            ),
            well_formed(final(self)@),
    {
        self.update_settings(&Choice::Appearance(appearance), shown);
    }

    /// Show an appearance without committing to it: it may yet be escaped out
    /// of, and a preview that was written down would be a choice.
    pub fn apply_appearance(&mut self, appearance: Appearance, shown: Appearance)
        requires
            well_formed(old(self)@),
        ensures
            final(self)@ == appearance_previewed(old(self)@, appearance, shown),
            well_formed(final(self)@),
    {
        if appearance == shown {
            return ;
        }
        self.say(Effect::ShowTheme(appearance));
        self.say(Effect::Refresh);
        self.say(Effect::Notify);
    }
}

/// A preview is not a choice: it leaves the settings as they were and writes
/// nothing down.
pub proof fn a_preview_is_not_a_choice(
    window: WindowView,
    appearance: Appearance,
    shown: Appearance,
    at: int,
)
    requires
        window.outbox.len() <= at < appearance_previewed(window, appearance, shown).outbox.len(),
    ensures
        appearance_previewed(window, appearance, shown).settings == window.settings,
        !(appearance_previewed(window, appearance, shown).outbox[at] is SaveSettings),
{
}

/// A setting takes effect in every pane: each is given what it carries itself.
pub proof fn every_pane_is_dressed(window: WindowView, count: int, pane: int)
    requires
        0 <= pane < count <= window.panes.len(),
    ensures
        dressed(window, count).outbox.contains(
            dressing(window.settings, window.panes[pane].id),
        ),
    decreases count,
{
    let outbox = dressed(window, count).outbox;
    let act = dressing(window.settings, window.panes[pane].id);
    let before = dressed(window, count - 1).outbox;
    lemma_dressed(window, count - 1);
    if pane == count - 1 {
        assert(outbox[outbox.len() - 1] == act);
    } else {
        every_pane_is_dressed(window, count - 1, pane);
        let i = choose|i: int| 0 <= i < before.len() && before[i] == act;
        assert(outbox[i] == act);
    }
}

} // verus!
