use vstd::prelude::*;
use crate::abbrev::AbbrMap;

verus! {

/// Texts of this many characters or more cannot be a short form: a first
/// element of a pair above the threshold is dropped and no entry is made.
pub const SHORT_FORM_LIMIT: usize = 10;

/// The abbreviation pairing machine's state: either nothing is pending,
/// or a short form awaits the long-form definition that should follow it.
pub enum PairState {
    Empty,
    PendingShortForm(String),
}

impl View for PairState {
    type V = Option<Seq<char>>;

    open spec fn view(&self) -> Option<Seq<char>> {
        match self {
            PairState::Empty => None,
            PairState::PendingShortForm(short) => Some(short@),
        }
    }
}

/// One transition of the machine on the text of an ABBR/paragraph passage.
///
/// With nothing pending, a text under the length limit becomes the pending
/// short form; a longer one is dropped.  With a short form pending, the
/// text becomes its recorded long form and the machine empties again.
pub open spec fn spec_pair_step(
    pending: Option<Seq<char>>,
    glossary: Map<Seq<char>, Seq<char>>,
    text: Seq<char>,
) -> (Option<Seq<char>>, Map<Seq<char>, Seq<char>>) {
    match pending {
        None => if text.len() < SHORT_FORM_LIMIT {
            (Some(text), glossary)
        } else {
            (None, glossary)
        },
        Some(short) => (None, glossary.insert(short, text)),
    }
}

/// The machine run from its initial state over a whole sequence of
/// ABBR/paragraph texts, in document order.
pub open spec fn spec_pair_run(texts: Seq<Seq<char>>) -> (Option<Seq<char>>, Map<
    Seq<char>,
    Seq<char>,
>)
    decreases texts.len(),
{
    if texts.len() == 0 {
        (None, Map::<Seq<char>, Seq<char>>::empty())
    } else {
        let prev = spec_pair_run(texts.drop_last());
        spec_pair_step(prev.0, prev.1, texts.last())
    }
}

impl PairState {
    pub fn new() -> (r: PairState)
        ensures
            r@ == None::<Seq<char>>,
    {
        PairState::Empty
    }

    /// Feed the text of one ABBR/paragraph passage to the machine.
    pub fn step(&mut self, text: String, glossary: &mut AbbrMap)
        requires
            old(glossary).wf(),
        ensures
            final(glossary).wf(),
            (final(self)@, final(glossary)@)
                == spec_pair_step(old(self)@, old(glossary)@, text@),
    {
        let pending: Option<String> = match self {
            PairState::Empty => None,
            PairState::PendingShortForm(short) => Some(short.clone()),
        };
        match pending {
            None => {
                if text.as_str().unicode_len() < SHORT_FORM_LIMIT {
                    *self = PairState::PendingShortForm(text);
                } else {
                    *self = PairState::Empty;
                }
            },
            Some(short) => {
                glossary.insert(short, text);
                *self = PairState::Empty;
            },
        }
    }
}

/// An odd-length run `[short, long, tail]` records exactly the one pair
/// `short -> long`; the trailing text is left pending and yields no entry,
/// so it is discarded at document end.
pub proof fn lemma_odd_run_discards_tail(short: Seq<char>, long: Seq<char>, tail: Seq<char>)
    requires
        short.len() < SHORT_FORM_LIMIT,
    ensures
        spec_pair_run(seq![short, long, tail]).1
            == Map::<Seq<char>, Seq<char>>::empty().insert(short, long),
{
    let s = seq![short, long, tail];
    let s2 = seq![short, long];
    let s1 = seq![short];
    let s0 = Seq::<Seq<char>>::empty();
    assert(s.drop_last() =~= s2);
    assert(s2.drop_last() =~= s1);
    assert(s1.drop_last() =~= s0);
    assert(spec_pair_run(s0) == (None::<Seq<char>>, Map::<Seq<char>, Seq<char>>::empty()));
    assert(spec_pair_run(s1) == spec_pair_step(None, Map::<Seq<char>, Seq<char>>::empty(), short));
    assert(spec_pair_run(s2) == spec_pair_step(spec_pair_run(s1).0, spec_pair_run(s1).1, long));
    assert(spec_pair_run(s) == spec_pair_step(spec_pair_run(s2).0, spec_pair_run(s2).1, tail));
}

/// The length gate: a run that opens with a text at or over the limit
/// records nothing, whatever follows as its second element.
pub proof fn lemma_length_gate(first: Seq<char>, second: Seq<char>)
    requires
        first.len() >= SHORT_FORM_LIMIT,
    ensures
        spec_pair_run(seq![first, second]).1 == Map::<Seq<char>, Seq<char>>::empty(),
{
    let s = seq![first, second];
    let s1 = seq![first];
    let s0 = Seq::<Seq<char>>::empty();
    assert(s.drop_last() =~= s1);
    assert(s1.drop_last() =~= s0);
    assert(spec_pair_run(s0) == (None::<Seq<char>>, Map::<Seq<char>, Seq<char>>::empty()));
    assert(spec_pair_run(s1) == spec_pair_step(None, Map::<Seq<char>, Seq<char>>::empty(), first));
    assert(spec_pair_run(s) == spec_pair_step(spec_pair_run(s1).0, spec_pair_run(s1).1, second));
}

} // verus!
