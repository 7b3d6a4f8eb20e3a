//! The decode ticker's bookkeeping on the main thread: what each result from
//! the decoder does to the shown result, the retained info, instrument and
//! probe frames, and the gap flag.  Text waits its turn behind text, an info
//! line is held for a while before anything but text replaces it, and a gap
//! clears everything the burst left behind.

use vstd::prelude::*;

verus! {

/// The kind of result the ticker shows.  Instrument readings and probe
/// frames never become the shown result, and a gap shows as no signal.
#[derive(Clone, Copy, PartialEq, Eq, Debug, Structural)]
pub enum Shown {
    Text,
    Info,
    NoSignal,
}

/// The kind of result that arrived from the decoder.
#[derive(Clone, Copy, PartialEq, Eq, Debug, Structural)]
pub enum Arrival {
    Text,
    Info,
    Instrument,
    Probe,
    NoSignal,
    Gap,
}

/// What an arrival does to the ticker.
#[derive(Clone, Copy, PartialEq, Eq, Debug, Structural)]
pub struct TickerUpdate {
    /// Queue the text's characters for the scroll.
    pub queue_text: bool,
    /// Keep the arrival as the latest info line, for the Di bar.
    pub store_info: bool,
    /// Replace the shown result (by the arrival, or by no signal at a gap)
    /// and restart the hold.
    pub show: Option<Shown>,
    /// Keep the arrival as the latest instrument reading (a cleared one
    /// included).
    pub store_instrument: bool,
    /// Append the arrival's probe frames to those not yet drained.
    pub append_probe: bool,
    /// Drop the retained info, instrument and probe frames.
    pub clear_burst: bool,
    /// The new value of the gap flag, when it changes.
    pub in_gap: Option<bool>,
}

/// Nothing changes.
pub open spec fn no_update() -> TickerUpdate {
    TickerUpdate {
        queue_text: false,
        store_info: false,
        show: None,
        store_instrument: false,
        append_probe: false,
        clear_burst: false,
        in_gap: None,
    }
}

/// Whether a shown info line still holds off a new info line or a no-signal:
/// it does until its hold has run out.
pub open spec fn held(shown: Shown, info_hold_over: bool) -> bool {
    shown == Shown::Info && !info_hold_over
}

/// What arrival `a` does when `shown` is on display; `info_hold_over` says
/// whether the shown result has been up for the info hold.
pub open spec fn ticker_spec(shown: Shown, a: Arrival, info_hold_over: bool) -> TickerUpdate {
    match a {
        Arrival::Text => TickerUpdate {
            queue_text: true,
            show: if shown == Shown::Text {
                None
            } else {
                Some(Shown::Text)
            },
            in_gap: Some(false),
            ..no_update()
        },
        Arrival::Info => TickerUpdate {
            store_info: true,
            show: if held(shown, info_hold_over) {
                None
            } else {
                Some(Shown::Info)
            },
            ..no_update()
        },
        Arrival::NoSignal => TickerUpdate {
            show: if held(shown, info_hold_over) {
                None
            } else {
                Some(Shown::NoSignal)
            },
            ..no_update()
        },
        Arrival::Probe => TickerUpdate { append_probe: true, ..no_update() },
        Arrival::Instrument => TickerUpdate { store_instrument: true, ..no_update() },
        Arrival::Gap => TickerUpdate {
            show: Some(Shown::NoSignal),
            clear_burst: true,
            in_gap: Some(true),
            ..no_update()
        },
    }
}

/// Decide what arrival `a` does to the ticker while `shown` is on display.
pub fn ticker_update(shown: Shown, a: Arrival, info_hold_over: bool) -> (u: TickerUpdate)
    ensures
        u == ticker_spec(shown, a, info_hold_over),
{
    let none = TickerUpdate {
        queue_text: false,
        store_info: false,
        show: None,
        store_instrument: false,
        append_probe: false,
        clear_burst: false,
        in_gap: None,
    };
    let held = shown == Shown::Info && !info_hold_over;
    match a {
        Arrival::Text => TickerUpdate {
            queue_text: true,
            show: if shown == Shown::Text {
                None
            } else {
                Some(Shown::Text)
            },
            in_gap: Some(false),
            ..none
        },
        Arrival::Info => TickerUpdate {
            store_info: true,
            show: if held {
                None
            } else {
                Some(Shown::Info)
            },
            ..none
        },
        Arrival::NoSignal => TickerUpdate {
            show: if held {
                None
            } else {
                Some(Shown::NoSignal)
            },
            ..none
        },
        Arrival::Probe => TickerUpdate { append_probe: true, ..none },
        Arrival::Instrument => TickerUpdate { store_instrument: true, ..none },
        Arrival::Gap => TickerUpdate {
            show: Some(Shown::NoSignal),
            clear_burst: true,
            in_gap: Some(true),
            ..none
        },
    }
}

/// What is on display after an update.
pub open spec fn shown_after(shown: Shown, u: TickerUpdate) -> Shown {
    match u.show {
        Some(k) => k,
        None => shown,
    }
}

/// Decoded text takes the display from anything that is not text, whatever
/// the hold, restarting the hold; text arriving under text joins the queue
/// and leaves the hold running.
pub proof fn lemma_text_takes_the_display(shown: Shown, info_hold_over: bool)
    ensures
        shown_after(shown, ticker_spec(shown, Arrival::Text, info_hold_over)) == Shown::Text,
        ticker_spec(shown, Arrival::Text, info_hold_over).show.is_some() <==> shown != Shown::Text,
{
}

/// A result that takes the display shows its own kind (a gap shows as no
/// signal), and instrument readings and probe frames never take it.
pub proof fn lemma_display_shows_the_arrival(shown: Shown, a: Arrival, info_hold_over: bool)
    ensures
        match ticker_spec(shown, a, info_hold_over).show {
            Some(k) => k == match a {
                Arrival::Text => Shown::Text,
                Arrival::Info => Shown::Info,
                _ => Shown::NoSignal,
            },
            None => true,
        },
        (a == Arrival::Instrument || a == Arrival::Probe) ==> shown_after(
            shown,
            ticker_spec(shown, a, info_hold_over),
        ) == shown,
{
}

/// A gap ends the burst whatever is on display and however long it has been
/// up: the ticker shows no signal, restarts the hold, drops the retained
/// info, instrument and probe frames, and is in a gap; only text ends it.
pub proof fn lemma_gap_clears_the_burst(shown: Shown, info_hold_over: bool, a: Arrival)
    ensures
        ticker_spec(shown, Arrival::Gap, info_hold_over).show == Some(Shown::NoSignal),
        ticker_spec(shown, Arrival::Gap, info_hold_over).clear_burst,
        ticker_spec(shown, Arrival::Gap, info_hold_over).in_gap == Some(true),
        ticker_spec(shown, a, info_hold_over).clear_burst ==> a == Arrival::Gap,
        ticker_spec(shown, a, info_hold_over).in_gap == Some(false) <==> a == Arrival::Text,
{
}

/// Decoded text is never lost or held back: every text arrival is queued.
/// A shown info line is held against info and no-signal until its hold runs
/// out, and instrument readings and probe frames never touch what is shown.
pub proof fn lemma_hold_rules(shown: Shown, a: Arrival, info_hold_over: bool)
    ensures
        a == Arrival::Text ==> ticker_spec(shown, a, info_hold_over).queue_text,
        held(shown, info_hold_over) && (a == Arrival::Info || a == Arrival::NoSignal)
            ==> ticker_spec(shown, a, info_hold_over).show.is_none(),
        !held(shown, info_hold_over) && (a == Arrival::Info || a == Arrival::NoSignal)
            ==> ticker_spec(shown, a, info_hold_over).show.is_some(),
        (a == Arrival::Instrument || a == Arrival::Probe) ==> ticker_spec(
            shown,
            a,
            info_hold_over,
        ).show.is_none(),
{
}

} // verus!
