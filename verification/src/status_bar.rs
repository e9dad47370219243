//! The status bar's state: the flash message, the spinner verb and the
//! working-directory label, and the spans it shows.

use vstd::prelude::*;
use vstd::arithmetic::div_mod::{lemma_add_mod_noop, lemma_mod_self_0, lemma_small_mod};
use std::time::Instant;
use crate::clock::elapsed_nanos;
use crate::signal::take_pending;
use crate::numbers::{context_percent, context_percent_spec, decimal, format_tokens, format_tokens_spec, push_decimal};

verus! {

/// How many spinner verbs there are.
pub const SPINNER_VERB_COUNT: usize = 262;

/// The verbs the spinner cycles through while a reply streams in.
pub const SPINNER_VERBS: [&'static str; 262] = [
    "Accomplishing", "Actioning", "Actualizing", "Architecting", "Augmenting", "Avataring",
    "Baking", "Beaming", "Beboppin'", "Befuddling", "Billowing", "Bioforging", "Blanching",
    "Bloviating", "Boogieing", "Boondoggling", "Booping", "Bootstrapping", "Braindancing",
    "Breaching", "Brewing", "Bunning", "Burrowing", "Calculating", "Canoodling",
    "Caramelizing", "Cascading", "Catapulting", "Cerebrating", "Channeling", "Chipburning",
    "Choreographing", "Chroming", "Churning", "Ciphering", "Coalescing", "Cogitating",
    "Combobulating", "Compiling", "Composing", "Computing", "Concocting", "Considering",
    "Constructing", "Contemplating", "Cooking", "Coreslicing", "Cowboying", "Crafting",
    "Creating", "Crunching", "Crystallizing", "Cultivating", "Cyberdecking", "Darkpooling",
    "Datamining", "Datavaulting", "Deciphering", "Decompiling", "Decrypting", "Deliberating",
    "Deltasleeping", "Depixelating", "Dermatroding", "Determining", "Dilly-dallying",
    "Discombobulating", "Dissolving", "Doodling", "Downlinking", "Drifting", "Drizzling",
    "Ebbing", "Edgerunning", "Effecting", "Electrogliding", "Elucidating", "Embellishing",
    "Enchanting", "Encrypting", "Envisioning", "Evaporating", "Fermenting", "Fiddle-faddling",
    "Finagling", "Firewalling", "Flatcoding", "Flowing", "Flummoxing", "Fluttering", "Forging",
    "Forming", "Fragmenting", "Frolicking", "Frosting", "Gallivanting", "Galloping",
    "Gargoyleing", "Garnishing", "Generating", "Germinating", "Gesticulating", "Ghosting",
    "Glitching", "Gridwalking", "Grooving", "Gusting", "Hardwiring", "Harmonizing", "Hashing",
    "Hatching", "Herding", "Hexdumping", "Hologramming", "Honking", "Hotswapping",
    "Hullaballooing", "Hyperspacing", "Hyperthreading", "Ideating", "Imagining", "Improvising",
    "Incubating", "Inferring", "Infusing", "Interfacing", "Ionizing", "Iterating",
    "Jitterbugging", "Jockeying", "Julienning", "Kernelizing", "Kneading", "Leavening",
    "Levitating", "Linecooking", "Lollygagging", "Looping", "Manifesting", "Marinating",
    "Matrixing", "Meandering", "Megafluxing", "Meshing", "Metamorphosing", "Metaversing",
    "Mirrorshading", "Misting", "Moonwalking", "Morphing", "Moseying", "Mulling", "Mustering",
    "Musing", "Nanoweaving", "Nebulizing", "Neontracing", "Nesting", "Netrunning",
    "Neural-linking", "Neuromancing", "Noodling", "Nucleating", "Obfuscating", "Orbiting",
    "Orchestrating", "Osmosing", "Overclocking", "Overwatching", "Perambulating",
    "Percolating", "Perusing", "Philosophizing", "Photosynthesizing", "Pixeldrifting",
    "Pollinating", "Pondering", "Pontificating", "Pouncing", "Precipitating",
    "Prestidigitating", "Processing", "Proofing", "Propagating", "Puttering", "Puzzling",
    "Quantumizing", "Razzle-dazzling", "Razzmatazzing", "Recompiling", "Recombobulating",
    "Reflashing", "Reticulating", "Roosting", "Ruminating", "Sandboxing", "Scampering",
    "Schlepping", "Scurrying", "Seasoning", "Shadowcasting", "Shenaniganing", "Shimmying",
    "Simsense-loading", "Simstimming", "Simmering", "Skedaddling", "Sketching", "Slithering",
    "Smooshing", "Sock-hopping", "Soldering", "Spelunking", "Spinning", "Sprawling",
    "Sprouting", "Stewing", "Sublimating", "Subroutining", "Swirling", "Swooping",
    "Symbioting", "Synapse-firing", "Synthwaving", "Synthesizing", "Tempering",
    "Tessier-ashpooling", "Thinking", "Thundering", "Tinkering", "Tomfoolering",
    "Topsy-turvying", "Tracing", "Transfiguring", "Transmuting", "Trode-jockeying",
    "Tunneling", "Twisting", "Undulating", "Unfurling", "Unraveling", "Uplinking",
    "Vaporwaving", "Vibing", "Voodoo-boying", "Voxelizing", "Waddling", "Wandering", "Warping",
    "Wetware-syncing", "Whatchamacalliting", "Whirlpooling", "Whirring", "Whisking",
    "Wibbling", "Wintermuting", "Wireframing", "Working", "Wrangling", "Zesting", "Zigzagging",
    "Zone-tripping",
];

/// How long a spinner verb stays before `tick_spinner` moves on, in
/// milliseconds.
pub const SPINNER_VERB_INTERVAL_MS: u128 = 3000;

/// The spinner verb at index `i`.
pub fn spinner_verb_at(i: usize) -> (verb: &'static str)
    requires
        i < SPINNER_VERB_COUNT,
    ensures
        verb == SPINNER_VERBS@[i as int],
{
    SPINNER_VERBS[i]
}

/// The spinner index after `i`: the next verb, wrapping around the list
/// (and, as `wrapping_add` does, past `usize::MAX` to 0).
pub open spec fn next_verb_index(i: usize) -> usize {
    (if i == usize::MAX { 0 } else { ((i + 1) % (SPINNER_VERB_COUNT as int)) as usize })
}

/// The spinner index after `n` advances from `i`.
pub open spec fn advance_verbs(i: usize, n: nat) -> usize
    decreases n,
{
    if n == 0 {
        i
    } else {
        next_verb_index(advance_verbs(i, (n - 1) as nat))
    }
}

proof fn lemma_advance_verbs(i: usize, n: nat)
    requires
        i < SPINNER_VERB_COUNT,
    ensures
        advance_verbs(i, n) == (i + n) % (SPINNER_VERB_COUNT as int),
    decreases n,
{
    let m = SPINNER_VERB_COUNT as int;
    if n > 0 {
        lemma_advance_verbs(i, (n - 1) as nat);
        let prev = advance_verbs(i, (n - 1) as nat);
        lemma_add_mod_noop(i + n - 1, 1, m);
        lemma_small_mod(1, m as nat);
        assert(prev < m);
    }
}

/// `x % m` for `x` below `2 * m`.
proof fn lemma_mod_below_twice(x: int, m: int)
    requires
        0 < m,
        0 <= x < 2 * m,
    ensures
        x % m == if x < m { x } else { x - m },
{
    if x < m {
        lemma_small_mod(x as nat, m as nat);
    } else {
        lemma_add_mod_noop(x - m, m, m);
        lemma_mod_self_0(m);
        lemma_small_mod((x - m) as nat, m as nat);
    }
}

/// The spinner shows every verb in turn: from any verb, the next verbs
/// are all different until each has been shown, and after as many
/// advances as there are verbs the spinner is back where it started.
pub proof fn law_spinner_cycles_through_verbs(i: usize)
    requires
        i < SPINNER_VERB_COUNT,
    ensures
        advance_verbs(i, SPINNER_VERB_COUNT as nat) == i,
        forall|k: nat| k < SPINNER_VERB_COUNT ==> #[trigger] advance_verbs(i, k) < SPINNER_VERB_COUNT,
        forall|k1: nat, k2: nat|
            k1 < k2 < SPINNER_VERB_COUNT ==> #[trigger] advance_verbs(i, k1) != #[trigger] advance_verbs(i, k2),
{
    let m = SPINNER_VERB_COUNT as int;
    lemma_advance_verbs(i, SPINNER_VERB_COUNT as nat);
    lemma_mod_below_twice(i + m, m);
    assert forall|k: nat| k < SPINNER_VERB_COUNT implies #[trigger] advance_verbs(i, k) < SPINNER_VERB_COUNT by {
        lemma_advance_verbs(i, k);
        lemma_mod_below_twice(i + k, m);
    }
    assert forall|k1: nat, k2: nat| k1 < k2 < SPINNER_VERB_COUNT implies #[trigger] advance_verbs(i, k1)
        != #[trigger] advance_verbs(i, k2) by {
        lemma_advance_verbs(i, k1);
        lemma_advance_verbs(i, k2);
        lemma_mod_below_twice(i + k1, m);
        lemma_mod_below_twice(i + k2, m);
    }
}

/// The status bar's state between frames.
///
/// Times are kept as nanoseconds since `started_at`, the bar's creation.
pub struct StatusBar {
    flash: Option<(String, u128)>,
    started_at: Instant,
    cwd_branch: String,
    /// How long a flash message stays, in nanoseconds.
    pub flash_duration: u128,
    branch_update_rx: Option<flume::Receiver<()>>,
    spinner_verb_idx: usize,
    spinner_verb_at: u128,
}

impl StatusBar {
    /// The flash message being shown, if any.
    pub closed spec fn flash_message(&self) -> Option<Seq<char>> {
        match self.flash {
            Some((m, _)) => Some(m@),
            None => None,
        }
    }

    /// When the flash message was shown, in nanoseconds since creation.
    pub closed spec fn flash_shown_at(&self) -> Option<u128> {
        match self.flash {
            Some((_, t)) => Some(t),
            None => None,
        }
    }

    /// How long a flash message stays, in nanoseconds (the
    /// `flash_duration` field).
    pub closed spec fn flash_lifetime(&self) -> u128 {
        self.flash_duration
    }

    /// The working-directory label (with the branch, if any).
    pub closed spec fn cwd_label(&self) -> Seq<char> {
        self.cwd_branch@
    }

    /// The index of the current spinner verb.
    pub closed spec fn verb_index(&self) -> usize {
        self.spinner_verb_idx
    }

    /// When the spinner verb last changed, in nanoseconds since creation.
    pub closed spec fn verb_changed_at(&self) -> u128 {
        self.spinner_verb_at
    }

    /// Whether a watcher reports branch changes to this bar.
    pub closed spec fn watches_branch(&self) -> bool {
        self.branch_update_rx is Some
    }

    /// The bar's state is as its operations leave it: the spinner index
    /// names a verb.
    pub open spec fn wf(&self) -> bool {
        self.verb_index() < SPINNER_VERB_COUNT
    }

    /// The instant the bar was created, against which its times count.
    pub closed spec fn clock_origin(&self) -> Instant {
        self.started_at
    }

    /// `self` and `other` agree on everything but the flash message.
    pub open spec fn same_but_flash(&self, other: &StatusBar) -> bool {
        &&& self.cwd_label() == other.cwd_label()
        &&& self.verb_index() == other.verb_index()
        &&& self.verb_changed_at() == other.verb_changed_at()
        &&& self.watches_branch() == other.watches_branch()
        &&& self.flash_lifetime() == other.flash_lifetime()
        &&& self.clock_origin() == other.clock_origin()
    }

    /// `self` and `other` agree on everything but the spinner.
    pub open spec fn same_but_spinner(&self, other: &StatusBar) -> bool {
        &&& self.cwd_label() == other.cwd_label()
        &&& self.flash_message() == other.flash_message()
        &&& self.flash_shown_at() == other.flash_shown_at()
        &&& self.watches_branch() == other.watches_branch()
        &&& self.flash_lifetime() == other.flash_lifetime()
        &&& self.clock_origin() == other.clock_origin()
    }

    /// `now` nanoseconds after creation, the flash message has been shown
    /// for `flash_duration` or longer.
    pub open spec fn flash_expired_spec(&self, now: u128) -> bool {
        match self.flash_shown_at() {
            Some(t) => now.saturating_sub(t) >= self.flash_lifetime(),
            None => false,
        }
    }

    /// `after` is `self` with the flash removed when it has expired at
    /// `now`, and unchanged otherwise.
    pub open spec fn hint_cleared_at(&self, after: &StatusBar, now: u128) -> bool {
        &&& after.flash_message() == (if self.flash_expired_spec(now) {
            None
        } else {
            self.flash_message()
        })
        &&& after.flash_shown_at() == (if self.flash_expired_spec(now) {
            None
        } else {
            self.flash_shown_at()
        })
        &&& after.same_but_flash(self)
    }

    /// `now` nanoseconds after creation, the spinner verb has been shown
    /// for the verb interval (3000 ms) or longer.
    pub open spec fn spinner_due_spec(&self, now: u128) -> bool {
        now.saturating_sub(self.verb_changed_at()) / 1_000_000 >= SPINNER_VERB_INTERVAL_MS
    }

    /// `after` is `self` ticked at `now`: moved on to the next verb,
    /// changed at `now`, when the verb is due; unchanged otherwise.
    pub open spec fn spinner_ticked_at(&self, after: &StatusBar, now: u128) -> bool {
        &&& if self.spinner_due_spec(now) {
            after.verb_index() == next_verb_index(self.verb_index()) && after.verb_changed_at()
                == now
        } else {
            after.verb_index() == self.verb_index() && after.verb_changed_at()
                == self.verb_changed_at()
        }
        &&& after.same_but_spinner(self)
    }

    /// A bar created at `started_at`, with no flash message, showing
    /// `cwd_branch`, whose flash messages last `flash_duration`
    /// nanoseconds; `branch_update_rx` reports branch changes, if given.
    /// The first spinner verb is picked from the milliseconds elapsed
    /// since `started_at`, by the clock's reading.
    pub fn new(
        flash_duration: u128,
        started_at: Instant,
        cwd_branch: String,
        branch_update_rx: Option<flume::Receiver<()>>,
    ) -> (bar: StatusBar)
        ensures
            bar.flash_message() is None,
            bar.cwd_label() == cwd_branch@,
            bar.flash_lifetime() == flash_duration,
            bar.watches_branch() == branch_update_rx is Some,
            bar.clock_origin() == started_at,
            bar.verb_changed_at() == 0,
            bar.wf(),
    {
        let millis = elapsed_nanos(&started_at) / 1_000_000;
        let idx = (millis as usize) % SPINNER_VERB_COUNT;
        StatusBar {
            flash: None,
            started_at,
            cwd_branch,
            flash_duration,
            branch_update_rx,
            spinner_verb_idx: idx,
            spinner_verb_at: 0,
        }
    }

    /// Shows `msg` as the flash message, from the clock's reading on.
    pub fn flash(&mut self, msg: String)
        ensures
            final(self).flash_message() == Some(msg@),
            final(self).flash_shown_at() is Some,
            final(self).same_but_flash(old(self)),
    {
        let now = elapsed_nanos(&self.started_at);
        self.flash_at(msg, now);
    }

    /// Shows `msg` as the flash message, shown `now` nanoseconds after
    /// creation.
    pub fn flash_at(&mut self, msg: String, now: u128)
        ensures
            final(self).flash_message() == Some(msg@),
            final(self).flash_shown_at() == Some(now),
            final(self).same_but_flash(old(self)),
    {
        self.flash = Some((msg, now));
    }

    /// The flash message being shown, if any.
    pub fn flash_text(&self) -> (text: Option<&str>)
        ensures
            match text {
                Some(t) => self.flash_message() == Some(t@),
                None => self.flash_message() is None,
            },
    {
        match &self.flash {
            Some((m, _)) => Some(m.as_str()),
            None => None,
        }
    }

    /// Shows `label` as the working-directory label from now on.
    pub fn refresh_cwd(&mut self, label: String)
        ensures
            final(self).cwd_label() == label@,
            final(self).flash_message() == old(self).flash_message(),
            final(self).flash_shown_at() == old(self).flash_shown_at(),
            final(self).verb_index() == old(self).verb_index(),
            final(self).verb_changed_at() == old(self).verb_changed_at(),
            final(self).watches_branch() == old(self).watches_branch(),
            final(self).flash_lifetime() == old(self).flash_lifetime(),
            final(self).clock_origin() == old(self).clock_origin(),
    {
        self.cwd_branch = label;
    }

    /// Takes a pending branch-change report, if the watcher has sent one;
    /// the caller then refreshes the label with `refresh_cwd`. Without a
    /// watcher there is never one.
    pub fn poll_branch_update(&mut self) -> (changed: bool)
        ensures
            changed ==> old(self).watches_branch(),
            final(self).cwd_label() == old(self).cwd_label(),
            final(self).flash_message() == old(self).flash_message(),
            final(self).flash_shown_at() == old(self).flash_shown_at(),
            final(self).verb_index() == old(self).verb_index(),
            final(self).verb_changed_at() == old(self).verb_changed_at(),
            final(self).watches_branch() == old(self).watches_branch(),
            final(self).flash_lifetime() == old(self).flash_lifetime(),
            final(self).clock_origin() == old(self).clock_origin(),
    {
        match &self.branch_update_rx {
            Some(rx) => take_pending(rx),
            None => false,
        }
    }

    /// Removes the flash message.
    pub fn clear_flash(&mut self)
        ensures
            final(self).flash_message() is None,
            final(self).same_but_flash(old(self)),
    {
        self.flash = None;
    }

    /// Whether, `now` nanoseconds after creation, the flash message has
    /// been shown for `flash_duration` or longer.
    pub fn flash_expired(&self, now: u128) -> (expired: bool)
        ensures
            expired == self.flash_expired_spec(now),
    {
        match &self.flash {
            Some((_, t)) => now.saturating_sub(*t) >= self.flash_duration,
            None => false,
        }
    }

    /// Removes the flash message once it has been shown for
    /// `flash_duration` by the clock's reading; leaves the bar as it is
    /// otherwise. With a zero `flash_duration` any flash message goes.
    pub fn clear_expired_hint(&mut self)
        ensures
            exists|now: u128| #[trigger] old(self).hint_cleared_at(final(self), now),
            old(self).flash_lifetime() == 0 ==> final(self).flash_message() is None,
    {
        let now = elapsed_nanos(&self.started_at);
        self.clear_expired_hint_at(now);
        assert(old(self).hint_cleared_at(self, now));
    }

    /// Removes the flash message if it has expired `now` nanoseconds after
    /// creation (see `flash_expired`); leaves the bar as it is otherwise.
    pub fn clear_expired_hint_at(&mut self, now: u128)
        ensures
            old(self).hint_cleared_at(final(self), now),
    {
        if self.flash_expired(now) {
            self.flash = None;
        }
    }

    /// Whether, `now` nanoseconds after creation, the spinner verb has
    /// been shown for the verb interval (3000 ms) or longer.
    pub fn spinner_due(&self, now: u128) -> (due: bool)
        ensures
            due == self.spinner_due_spec(now),
    {
        now.saturating_sub(self.spinner_verb_at) / 1_000_000 >= SPINNER_VERB_INTERVAL_MS
    }

    /// Moves on to the next spinner verb once the current one has been
    /// shown for the verb interval by the clock's reading; leaves the bar
    /// as it is otherwise.
    pub fn tick_spinner(&mut self)
        ensures
            exists|now: u128| #[trigger] old(self).spinner_ticked_at(final(self), now),
            old(self).wf() ==> final(self).wf(),
    {
        let now = elapsed_nanos(&self.started_at);
        self.tick_spinner_at(now);
        assert(old(self).spinner_ticked_at(self, now));
    }

    /// The spinner step `now` nanoseconds after creation: the next verb,
    /// changed at `now`, when the current one is due; no change otherwise.
    pub fn tick_spinner_at(&mut self, now: u128)
        ensures
            old(self).spinner_ticked_at(final(self), now),
            old(self).wf() ==> final(self).wf(),
    {
        if self.spinner_due(now) {
            self.advance_spinner_verb_at(now);
        }
    }

    /// Moves on to the next spinner verb now (after a thinking event, for
    /// instance), counting its time from the clock's reading.
    pub fn advance_spinner_verb(&mut self)
        ensures
            final(self).verb_index() == next_verb_index(old(self).verb_index()),
            final(self).wf(),
            final(self).same_but_spinner(old(self)),
    {
        let now = elapsed_nanos(&self.started_at);
        self.advance_spinner_verb_at(now);
    }

    /// Moves on to the next spinner verb, changed `now` nanoseconds after
    /// creation.
    pub fn advance_spinner_verb_at(&mut self, now: u128)
        ensures
            final(self).verb_index() == next_verb_index(old(self).verb_index()),
            final(self).verb_changed_at() == now,
            final(self).wf(),
            final(self).same_but_spinner(old(self)),
    {
        self.spinner_verb_idx = self.spinner_verb_idx.wrapping_add(1) % SPINNER_VERB_COUNT;
        self.spinner_verb_at = now;
    }

    /// The spinner verb being shown.
    pub fn spinner_verb(&self) -> (verb: &'static str)
        ensures
            verb == SPINNER_VERBS@[(self.verb_index() % SPINNER_VERB_COUNT) as int],
    {
        spinner_verb_at(self.spinner_verb_idx % SPINNER_VERB_COUNT)
    }

    /// Milliseconds since the bar was created, which drive the spinner's
    /// animation frame: the clock's reading in nanoseconds (a `u128`),
    /// counted in whole milliseconds; the reading itself is the clock's.
    pub fn millis_since_start(&self) -> (ms: u128)
        ensures
            ms <= u128::MAX / 1_000_000,
    {
        let nanos = elapsed_nanos(&self.started_at);
        nanos / 1_000_000
    }
}

/// A flash message shown at `t` is removed by a clearing at `now`
/// exactly when it has been shown for its lifetime, and kept while
/// `now - t` is shorter.
pub proof fn law_flash_kept_until_lifetime(before: StatusBar, after: StatusBar, t: u128, now: u128)
    requires
        before.flash_shown_at() == Some(t),
        before.hint_cleared_at(&after, now),
    ensures
        now.saturating_sub(t) >= before.flash_lifetime() ==> after.flash_message() is None,
        now.saturating_sub(t) < before.flash_lifetime() ==> after.flash_message()
            == before.flash_message(),
{
}

/// A tick within the verb interval of the last change keeps the verb; a
/// tick from the interval on moves to the next verb and restarts the
/// interval at its reading, so a second tick right after keeps it.
pub proof fn law_tick_waits_for_interval(before: StatusBar, mid: StatusBar, after: StatusBar, now: u128)
    requires
        before.spinner_ticked_at(&mid, now),
        mid.spinner_ticked_at(&after, now),
    ensures
        now.saturating_sub(before.verb_changed_at()) / 1_000_000 < SPINNER_VERB_INTERVAL_MS ==> mid.verb_index()
            == before.verb_index(),
        now.saturating_sub(before.verb_changed_at()) / 1_000_000 >= SPINNER_VERB_INTERVAL_MS ==> mid.verb_index()
            == next_verb_index(before.verb_index()) && mid.verb_changed_at() == now,
        after.verb_index() == mid.verb_index() || !before.spinner_due_spec(now),
{
}

/// Times are counted in nanoseconds: a flash with a lifetime of `life`
/// nanoseconds shown at `t` is still kept by a clearing at `t + life - 1`
/// and gone at `t + life`; a verb changed at `t` is kept by a tick at
/// `t + 2_999_999_999` and moves on at `t + 3_000_000_000` (3000 ms).
pub proof fn law_times_in_nanoseconds(
    bar: StatusBar,
    kept: StatusBar,
    gone: StatusBar,
    same: StatusBar,
    next: StatusBar,
    t: u128,
    life: u128,
)
    requires
        bar.flash_shown_at() == Some(t),
        bar.flash_lifetime() == life,
        life > 0,
        t + life <= u128::MAX,
        bar.hint_cleared_at(&kept, (t + life - 1) as u128),
        bar.hint_cleared_at(&gone, (t + life) as u128),
        bar.verb_changed_at() + 3_000_000_000 <= u128::MAX,
        bar.spinner_ticked_at(&same, (bar.verb_changed_at() + 2_999_999_999) as u128),
        bar.spinner_ticked_at(&next, (bar.verb_changed_at() + 3_000_000_000) as u128),
    ensures
        kept.flash_message() == bar.flash_message(),
        gone.flash_message() is None,
        same.verb_index() == bar.verb_index(),
        next.verb_index() == next_verb_index(bar.verb_index()),
{
}

/// Which part of the theme a span is drawn with.
#[derive(Clone, Copy, PartialEq, Eq, Debug, Structural)]
pub enum SpanStyle {
    /// The spinner and its verb.
    Spinner,
    /// The mode label, in the mode's own style.
    Mode,
    /// Context: chat name, paused scrolling, directory, model, thinking level.
    Context,
    /// The message of a failed request that will be retried.
    RetryError,
    /// The retry countdown.
    RetryInfo,
    /// An error message.
    Error,
    /// Token and cost figures, in the foreground colour.
    Foreground,
    /// Unstyled separator.
    Plain,
    /// The flash message.
    Flash,
}

/// A piece of text and the style it is drawn in.
pub struct StyledText {
    pub text: String,
    pub style: SpanStyle,
}

/// What the status bar shows: spans flushed left and spans flushed right.
pub struct StatusLine {
    pub left: Vec<StyledText>,
    pub right: Vec<StyledText>,
}

/// What the chat is doing, as far as the status bar cares.
pub enum Status {
    /// Waiting for input.
    Idle,
    /// A reply is streaming in.
    Streaming,
    /// The last request failed.
    Error { message: String },
}

/// A failed request that will be retried.
pub struct RetryInfo {
    pub message: String,
    pub attempt: u32,
    /// Whole seconds until the retry.
    pub secs_left: u64,
}

/// Token usage shown on the right: the context fill and the costs, the
/// costs already written out.
pub struct UsageStats {
    pub context_size: u32,
    pub context_window: u32,
    /// The cost of this chat, without the currency sign.
    pub cost: String,
    /// The cost of all chats, without the currency sign.
    pub global_cost: String,
    pub show_global: bool,
}

/// What the status bar shows besides its own state.
pub struct StatusBarContext {
    pub status: Status,
    pub mode_label: String,
    pub model_id: String,
    pub stats: UsageStats,
    pub auto_scroll: bool,
    pub chat_name: Option<String>,
    pub retry_info: Option<RetryInfo>,
    pub thinking_label: Option<String>,
}

/// Spans as texts and styles.
pub open spec fn styled(v: Seq<StyledText>) -> Seq<(Seq<char>, SpanStyle)> {
    v.map_values(|t: StyledText| (t.text@, t.style))
}

/// `text` preceded by a space.
pub open spec fn spaced(text: Seq<char>) -> Seq<char> {
    " "@ + text
}

/// `text` in brackets, preceded by a space.
pub open spec fn bracketed(text: Seq<char>) -> Seq<char> {
    " ["@ + text + "]"@
}

/// The retry countdown: ` · retrying in {secs}s (#{attempt})`.
pub open spec fn retry_countdown(secs: nat, attempt: nat) -> Seq<char> {
    " \u{b7} retrying in "@ + decimal(secs) + "s (#"@ + decimal(attempt) + ")"@
}

/// The usage figures: `  {tokens} ({pct}%) ${cost} `.
pub open spec fn usage_text(stats: UsageStats) -> Seq<char> {
    "  "@ + format_tokens_spec(stats.context_size as nat) + " ("@ + decimal(
        context_percent_spec(stats.context_size as nat, stats.context_window as nat),
    ) + "%) $"@ + stats.cost@ + " "@
}

/// The cost of all chats: ` Σ${cost} `.
pub open spec fn global_cost_text(stats: UsageStats) -> Seq<char> {
    " \u{3a3}$"@ + stats.global_cost@ + " "@
}

/// The spans on the left: spinner and verb while streaming, the mode,
/// the chat name, a paused auto-scroll, a pending retry, an error and
/// the flash message, each only when there is one.
pub open spec fn left_spans(
    ctx: StatusBarContext,
    spinner: Seq<char>,
    verb: Seq<char>,
    flash: Option<Seq<char>>,
) -> Seq<(Seq<char>, SpanStyle)> {
    let s1: Seq<(Seq<char>, SpanStyle)> = if ctx.status is Streaming {
        seq![(spaced(spinner), SpanStyle::Spinner), (spaced(verb), SpanStyle::Spinner)]
    } else {
        seq![]
    };
    let s2 = s1.push((spaced(ctx.mode_label@), SpanStyle::Mode));
    let s3 = match ctx.chat_name {
        Some(n) => s2.push((bracketed(n@), SpanStyle::Context)),
        None => s2,
    };
    let s4 = if !ctx.auto_scroll {
        s3.push((" auto-scroll paused"@, SpanStyle::Context))
    } else {
        s3
    };
    let s5 = match ctx.retry_info {
        Some(r) => s4.push((spaced(r.message@), SpanStyle::RetryError)).push(
            (retry_countdown(r.secs_left as nat, r.attempt as nat), SpanStyle::RetryInfo),
        ),
        None => s4,
    };
    let s6 = match ctx.status {
        Status::Error { message } => s5.push((spaced(message@), SpanStyle::Error)),
        _ => s5,
    };
    match flash {
        Some(m) => s6.push((spaced(m), SpanStyle::Flash)),
        None => s6,
    }
}

/// The spans on the right: nothing on error; else the directory label,
/// the model, the thinking level if any, the usage figures and, when
/// asked for, the cost of all chats.
pub open spec fn right_spans(ctx: StatusBarContext, cwd: Seq<char>) -> Seq<(Seq<char>, SpanStyle)> {
    if ctx.status is Error {
        seq![]
    } else {
        let r1 = seq![
            (cwd, SpanStyle::Context),
            ("  "@, SpanStyle::Plain),
            (ctx.model_id@, SpanStyle::Context),
        ];
        let r2 = match ctx.thinking_label {
            Some(l) => r1.push((bracketed(l@), SpanStyle::Context)),
            None => r1,
        };
        let r3 = r2.push((usage_text(ctx.stats), SpanStyle::Foreground));
        if ctx.stats.show_global {
            r3.push((global_cost_text(ctx.stats), SpanStyle::Foreground))
        } else {
            r3
        }
    }
}

/// No span of `spans` is drawn in the flash style.
pub open spec fn no_flash_span(spans: Seq<(Seq<char>, SpanStyle)>) -> bool {
    forall|i: int| 0 <= i < spans.len() ==> #[trigger] spans[i].1 != SpanStyle::Flash
}

/// Whatever the chat is doing, the flash message shows as the last span
/// on the left, as ` ` and the message in the flash style, exactly when
/// there is one; no other span is drawn in the flash style.
pub proof fn law_flash_shown_last(
    ctx: StatusBarContext,
    spinner: Seq<char>,
    verb: Seq<char>,
    flash: Option<Seq<char>>,
)
    ensures
        ({
            let l = left_spans(ctx, spinner, verb, flash);
            match flash {
                Some(m) => l.len() > 0 && l.last() == (" "@ + m, SpanStyle::Flash) && no_flash_span(
                    l.drop_last(),
                ),
                None => no_flash_span(l),
            }
        }),
{
    let s1: Seq<(Seq<char>, SpanStyle)> = if ctx.status is Streaming {
        seq![(spaced(spinner), SpanStyle::Spinner), (spaced(verb), SpanStyle::Spinner)]
    } else {
        seq![]
    };
    let s2 = s1.push((spaced(ctx.mode_label@), SpanStyle::Mode));
    let s3 = match ctx.chat_name {
        Some(n) => s2.push((bracketed(n@), SpanStyle::Context)),
        None => s2,
    };
    let s4 = if !ctx.auto_scroll {
        s3.push((" auto-scroll paused"@, SpanStyle::Context))
    } else {
        s3
    };
    let s5 = match ctx.retry_info {
        Some(r) => s4.push((spaced(r.message@), SpanStyle::RetryError)).push(
            (retry_countdown(r.secs_left as nat, r.attempt as nat), SpanStyle::RetryInfo),
        ),
        None => s4,
    };
    let s6 = match ctx.status {
        Status::Error { message } => s5.push((spaced(message@), SpanStyle::Error)),
        _ => s5,
    };
    assert(no_flash_span(s1));
    assert(no_flash_span(s2));
    assert(no_flash_span(s3));
    assert(no_flash_span(s4));
    match ctx.retry_info {
        Some(r) => {
            let t = s4.push((spaced(r.message@), SpanStyle::RetryError));
            assert(no_flash_span(t));
            assert(no_flash_span(s5));
        },
        None => {},
    }
    assert(no_flash_span(s6));
    match flash {
        Some(m) => {
            assert(s6.push((spaced(m), SpanStyle::Flash)).drop_last() =~= s6);
        },
        None => {},
    }
}

/// The mode label always shows on the left, in the mode's style: first,
/// or right after the spinner and its verb while a reply streams in,
/// which is exactly when the first span is the spinner.
pub proof fn law_mode_shown_after_spinner(
    ctx: StatusBarContext,
    spinner: Seq<char>,
    verb: Seq<char>,
    flash: Option<Seq<char>>,
)
    ensures
        ({
            let l = left_spans(ctx, spinner, verb, flash);
            let at: int = if ctx.status is Streaming { 2 } else { 0 };
            &&& l.len() > at
            &&& l[at] == (" "@ + ctx.mode_label@, SpanStyle::Mode)
            &&& (l[0].1 == SpanStyle::Spinner <==> ctx.status is Streaming)
            &&& (ctx.status is Streaming ==> l[0] == (" "@ + spinner, SpanStyle::Spinner) && l[1]
                == (" "@ + verb, SpanStyle::Spinner))
        }),
{
}

/// The right side is empty exactly when the last request failed;
/// otherwise it starts with the directory label, a gap and the model,
/// and its last span is the usage figures, or the cost of all chats
/// when that is asked for.
pub proof fn law_right_side(ctx: StatusBarContext, cwd: Seq<char>)
    ensures
        ({
            let r = right_spans(ctx, cwd);
            &&& (r.len() == 0 <==> ctx.status is Error)
            &&& (!(ctx.status is Error) ==> {
                &&& r.len() >= 4
                &&& r[0] == (cwd, SpanStyle::Context)
                &&& r[1] == ("  "@, SpanStyle::Plain)
                &&& r[2] == (ctx.model_id@, SpanStyle::Context)
                &&& r.last() == if ctx.stats.show_global {
                    (global_cost_text(ctx.stats), SpanStyle::Foreground)
                } else {
                    (usage_text(ctx.stats), SpanStyle::Foreground)
                }
            })
        }),
{
}

/// Appends a span.
fn push_span(v: &mut Vec<StyledText>, text: String, style: SpanStyle)
    ensures
        styled(final(v)@) == styled(old(v)@).push((text@, style)),
{
    let ghost t = text@;
    v.push(StyledText { text, style });
    assert(styled(v@) =~= styled(old(v)@).push((t, style)));
}

/// `text` preceded by a space.
fn spaced_text(text: &str) -> (r: String)
    ensures
        r@ == spaced(text@),
{
    let mut r = String::from_str(" ");
    r.append(text);
    r
}

/// `a` followed by `b` and `c`.
fn concat3(a: &str, b: &str, c: &str) -> (r: String)
    ensures
        r@ == a@ + b@ + c@,
{
    let mut r = String::from_str(a);
    r.append(b);
    r.append(c);
    r
}

impl StatusBar {
    /// What the status bar shows for `ctx`, with `spinner` as the
    /// spinner's current frame.
    pub fn view(&self, ctx: &StatusBarContext, spinner: &str) -> (line: StatusLine)
        ensures
            styled(line.left@) == left_spans(
                *ctx,
                spinner@,
                SPINNER_VERBS@[(self.verb_index() % SPINNER_VERB_COUNT) as int]@,
                self.flash_message(),
            ),
            styled(line.right@) == right_spans(*ctx, self.cwd_label()),
    {
        let mut left: Vec<StyledText> = Vec::new();
        assert(styled(left@) =~= seq![]);
        let streaming = match &ctx.status {
            Status::Streaming => true,
            _ => false,
        };
        if streaming {
            push_span(&mut left, spaced_text(spinner), SpanStyle::Spinner);
            push_span(&mut left, spaced_text(self.spinner_verb()), SpanStyle::Spinner);
        }
        push_span(&mut left, spaced_text(ctx.mode_label.as_str()), SpanStyle::Mode);
        match &ctx.chat_name {
            Some(n) => push_span(&mut left, concat3(" [", n.as_str(), "]"), SpanStyle::Context),
            None => {},
        }
        if !ctx.auto_scroll {
            push_span(&mut left, String::from_str(" auto-scroll paused"), SpanStyle::Context);
        }
        match &ctx.retry_info {
            Some(r) => {
                push_span(&mut left, spaced_text(r.message.as_str()), SpanStyle::RetryError);
                let mut t = String::from_str(" \u{b7} retrying in ");
                push_decimal(&mut t, r.secs_left as u128);
                t.append("s (#");
                push_decimal(&mut t, r.attempt as u128);
                t.append(")");
                push_span(&mut left, t, SpanStyle::RetryInfo);
            },
            None => {},
        }
        let mut right: Vec<StyledText> = Vec::new();
        assert(styled(right@) =~= seq![]);
        match &ctx.status {
            Status::Error { message } => {
                push_span(&mut left, spaced_text(message.as_str()), SpanStyle::Error);
            },
            _ => {
                let pct = context_percent(ctx.stats.context_size, ctx.stats.context_window);
                push_span(&mut right, self.cwd_branch.clone(), SpanStyle::Context);
                push_span(&mut right, String::from_str("  "), SpanStyle::Plain);
                push_span(&mut right, ctx.model_id.clone(), SpanStyle::Context);
                match &ctx.thinking_label {
                    Some(l) => push_span(&mut right, concat3(" [", l.as_str(), "]"), SpanStyle::Context),
                    None => {},
                }
                let mut rest = String::from_str("  ");
                let tokens = format_tokens(ctx.stats.context_size);
                rest.append(tokens.as_str());
                rest.append(" (");
                push_decimal(&mut rest, pct as u128);
                rest.append("%) $");
                rest.append(ctx.stats.cost.as_str());
                rest.append(" ");
                push_span(&mut right, rest, SpanStyle::Foreground);
                if ctx.stats.show_global {
                    push_span(&mut right, concat3(" \u{3a3}$", ctx.stats.global_cost.as_str(), " "), SpanStyle::Foreground);
                }
            },
        }
        match &self.flash {
            Some((m, _)) => push_span(&mut left, spaced_text(m.as_str()), SpanStyle::Flash),
            None => {},
        }
        StatusLine { left, right }
    }
}

} // verus!
