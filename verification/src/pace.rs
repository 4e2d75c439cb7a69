//! How a quota's use compares to the elapsed part of the month: its label and colour,
//! and the summary line over all metered quotas.
use crate::quota::{DisplayData, QuotaInfo};
use vstd::prelude::*;

verus! {

/// How fast a quota is being used against the elapsed part of the month, from fastest
/// to slowest.
#[derive(Debug, Clone, Copy, PartialEq, Eq)]
pub enum Pace {
    Overusing,
    SlightlyFast,
    GoodPace,
    PlentyLeft,
}

/// The colour in which a quota is shown.
#[derive(Debug, Clone, Copy, PartialEq, Eq)]
pub enum PaceColor {
    Red,
    Yellow,
    Green,
}

/// The short label of a pace.
pub open spec fn pace_text(pace: Pace) -> Seq<char> {
    match pace {
        Pace::Overusing => "⚠  Overusing"@,
        Pace::SlightlyFast => "△  Slightly fast"@,
        Pace::GoodPace => "✓  Good pace"@,
        Pace::PlentyLeft => "◎  Plenty left"@,
    }
}

/// The colour of a pace: red when overusing, yellow when slightly fast, green otherwise.
pub open spec fn pace_color_of(pace: Pace) -> PaceColor {
    match pace {
        Pace::Overusing => PaceColor::Red,
        Pace::SlightlyFast => PaceColor::Yellow,
        Pace::GoodPace => PaceColor::Green,
        Pace::PlentyLeft => PaceColor::Green,
    }
}

impl Pace {
    /// The short label of this pace.
    pub fn label(&self) -> (res: &'static str)
        ensures
            res@ == pace_text(*self),
    {
        match self {
            Pace::Overusing => "⚠  Overusing",
            Pace::SlightlyFast => "△  Slightly fast",
            Pace::GoodPace => "✓  Good pace",
            Pace::PlentyLeft => "◎  Plenty left",
        }
    }

    /// The colour of this pace.
    pub fn color(&self) -> (res: PaceColor)
        ensures
            res == pace_color_of(*self),
    {
        match self {
            Pace::Overusing => PaceColor::Red,
            Pace::SlightlyFast => PaceColor::Yellow,
            Pace::GoodPace => PaceColor::Green,
            Pace::PlentyLeft => PaceColor::Green,
        }
    }
}

/// The separator between the messages of the summary line.
pub open spec fn summary_separator() -> Seq<char> {
    "  |  "@
}

/// The summary line when every quota is unlimited.
pub open spec fn no_metered_message() -> Seq<char> {
    "No tracked quotas (all unlimited)"@
}

/// The messages `messages` joined by `sep`.
pub open spec fn join(messages: Seq<Seq<char>>, sep: Seq<char>) -> Seq<char>
    decreases messages.len(),
{
    if messages.len() == 0 {
        Seq::empty()
    } else if messages.len() == 1 {
        messages[0]
    } else {
        join(messages.drop_last(), sep) + sep + messages.last()
    }
}

/// The message of a metered quota: its label, a colon and its pace.
pub open spec fn pace_message<P>(q: QuotaInfo<P>, pace: Pace) -> Seq<char> {
    q.label@ + ": "@ + pace_text(pace)
}

/// The messages of the metered quotas among the first `n`, in order; the quota at
/// position `i` has pace `paces[i]`.
pub open spec fn pace_messages<P>(quotas: Seq<QuotaInfo<P>>, paces: Seq<Pace>, n: int) -> Seq<Seq<char>>
    decreases n,
{
    if n <= 0 {
        Seq::empty()
    } else if quotas[n - 1].unlimited {
        pace_messages(quotas, paces, n - 1)
    } else {
        pace_messages(quotas, paces, n - 1).push(pace_message(quotas[n - 1], paces[n - 1]))
    }
}

/// The summary line: the messages of the metered quotas joined by the separator, or the
/// message that none is metered.
pub open spec fn pace_summary_text<P>(quotas: Seq<QuotaInfo<P>>, paces: Seq<Pace>) -> Seq<char> {
    let messages = pace_messages(quotas, paces, quotas.len() as int);
    if messages.len() == 0 {
        no_metered_message()
    } else {
        join(messages, summary_separator())
    }
}

/// The summary line of the paces of all metered quotas; `paces[i]` is the pace of the
/// quota at position `i`.
pub fn pace_summary<P>(data: &DisplayData<P>, paces: &Vec<Pace>) -> (res: String)
    requires
        paces.len() == data.quotas.len(),
    ensures
        res@ == pace_summary_text(data.quotas@, paces@),
{
    let mut line = String::new();
    let mut count: usize = 0;
    let mut i: usize = 0;
    while i < data.quotas.len()
        invariant
            0 <= i <= data.quotas.len(),
            paces.len() == data.quotas.len(),
            count == pace_messages(data.quotas@, paces@, i as int).len(),
            count <= i,
            line@ == join(pace_messages(data.quotas@, paces@, i as int), summary_separator()),
        decreases data.quotas.len() - i,
    {
        let q = &data.quotas[i];
        if !q.unlimited {
            let ghost before = pace_messages(data.quotas@, paces@, i as int);
            let ghost message = pace_message(*q, paces[i as int]);
            if count > 0 {
                line.append("  |  ");
            }
            line.append(q.label.as_str());
            line.append(": ");
            line.append(paces[i].label());
            proof {
                let after = before.push(message);
                assert(after.drop_last() =~= before);
                if before.len() == 0 {
                    assert(line@ =~= message);
                } else {
                    assert(line@ =~= join(before, summary_separator()) + summary_separator() + message);
                }
            }
            count = count + 1;
        }
        i = i + 1;
    }
    if count == 0 {
        "No tracked quotas (all unlimited)".to_owned()
    } else {
        line
    }
}

/// The messages of the metered quotas among the first `n`: the positions below `n` whose
/// quota is not unlimited, in order, each as the quota's label, a colon and its pace.
proof fn lemma_messages_of_metered_positions<P>(quotas: Seq<QuotaInfo<P>>, paces: Seq<Pace>, n: int)
    requires
        0 <= n,
    ensures
        pace_messages(quotas, paces, n) == Seq::new(n as nat, |i: int| i).filter(|i: int| !quotas[i].unlimited).map_values(|i: int| quotas[i].label@ + ": "@ + pace_text(paces[i])),
    decreases n,
{
    let all = Seq::new(n as nat, |i: int| i);
    let metered = |i: int| !quotas[i].unlimited;
    let message = |i: int| quotas[i].label@ + ": "@ + pace_text(paces[i]);
    reveal_with_fuel(Seq::filter, 1);
    if n == 0 {
        assert(all.filter(metered).map_values(message) =~= Seq::empty());
    } else {
        lemma_messages_of_metered_positions(quotas, paces, n - 1);
        let before = Seq::new((n - 1) as nat, |i: int| i);
        assert(all.drop_last() =~= before);
        assert(all.last() == n - 1);
        if metered(n - 1) {
            assert(before.filter(metered).push(n - 1).map_values(message) =~= before.filter(metered).map_values(message).push(message(n - 1)));
        }
    }
}

/// The summary has one message per metered quota: the quotas that are not unlimited, in
/// order, each shown as its label, a colon and the text of its pace; unlimited quotas give
/// none.
pub proof fn lemma_one_message_per_metered_quota<P>(quotas: Seq<QuotaInfo<P>>, paces: Seq<Pace>)
    ensures
        pace_messages(quotas, paces, quotas.len() as int) == Seq::new(quotas.len(), |i: int| i).filter(|i: int| !quotas[i].unlimited).map_values(|i: int| quotas[i].label@ + ": "@ + pace_text(paces[i])),
        pace_messages(quotas, paces, quotas.len() as int).len() == Seq::new(quotas.len(), |i: int| i).filter(|i: int| !quotas[i].unlimited).len(),
{
    lemma_messages_of_metered_positions(quotas, paces, quotas.len() as int);
}

} // verus!
