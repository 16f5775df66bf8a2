use vstd::prelude::*;
use crate::names::NameList;
use crate::strutil::str_eq;

verus! {

/// One event of a forward-only tag stream: a start tag, an end tag, or
/// character data.
pub enum XmlEvent {
    Open(String),
    Close(String),
    Text(String),
}

#[verifier::ext_equal]
pub ghost enum EventView {
    Open(Seq<char>),
    Close(Seq<char>),
    Text(Seq<char>),
}

impl View for XmlEvent {
    type V = EventView;

    open spec fn view(&self) -> EventView {
        match self {
            XmlEvent::Open(t) => EventView::Open(t@),
            XmlEvent::Close(t) => EventView::Close(t@),
            XmlEvent::Text(t) => EventView::Text(t@),
        }
    }
}

pub open spec fn event_views(events: Seq<XmlEvent>) -> Seq<EventView> {
    events.map_values(|e: XmlEvent| e@)
}

/// Where a seek leaves the cursor: just after the first start tag named
/// `tag` at or after `start`, if the stream holds one.
pub open spec fn seek_spec(events: Seq<EventView>, start: int, tag: Seq<char>) -> Option<int>
    decreases events.len() - start,
{
    if start < 0 || start >= events.len() {
        None
    } else if events[start] == EventView::Open(tag) {
        Some(start + 1)
    } else {
        seek_spec(events, start + 1, tag)
    }
}

/// Advance the cursor, discarding events, until a start tag named `tag`
/// is seen; the cursor lands immediately after it.  Reaching the end of
/// the stream without one is a failure.
pub fn seek(events: &Vec<XmlEvent>, start: usize, tag: &str) -> (r: Option<usize>)
    ensures
        (match r {
            Some(i) => Some(i as int),
            None => None::<int>,
        }) == seek_spec(event_views(events@), start as int, tag@),
        r matches Some(i) ==> start < i <= events@.len(),
{
    let n = events.len();
    if start >= n {
        return None;
    }
    let mut i = start;
    while i < n
        invariant
            n == events@.len(),
            start <= i,
            i <= n,
            seek_spec(event_views(events@), start as int, tag@)
                == seek_spec(event_views(events@), i as int, tag@),
        decreases n - i,
    {
        let matched = match &events[i] {
            XmlEvent::Open(t) => str_eq(t.as_str(), tag),
            _ => false,
        };
        proof {
            assert(event_views(events@)[i as int] == events@[i as int]@);
        }
        if matched {
            return Some(i + 1);
        }
        proof {
            assert(event_views(events@)[i as int] != EventView::Open(tag@));
        }
        i += 1;
    }
    None
}

/// What collecting a scoped region yields, starting just inside the open
/// `tag` with the given stack of tags opened since: the concatenated
/// character data (withheld while the innermost open tag is excluded),
/// the cursor position after the stop, and whether the stop was the
/// matching close of `tag`.  A close with no matching open and the end of
/// the stream are defensive stops, not failures.
pub open spec fn collect_spec(
    events: Seq<EventView>,
    i: int,
    tag: Seq<char>,
    exclusions: Set<Seq<char>>,
    stack: Seq<Seq<char>>,
) -> (Seq<char>, int, bool)
    decreases events.len() - i,
{
    if i < 0 || i >= events.len() {
        (Seq::<char>::empty(), i, false)
    } else {
        match events[i] {
            EventView::Open(t) => collect_spec(events, i + 1, tag, exclusions, stack.push(t)),
            EventView::Close(t) => if stack.len() == 0 {
                (Seq::<char>::empty(), i + 1, t == tag)
            } else {
                collect_spec(events, i + 1, tag, exclusions, stack.drop_last())
            },
            EventView::Text(t) => {
                let rest = collect_spec(events, i + 1, tag, exclusions, stack);
                let keep = stack.len() == 0 || !exclusions.contains(stack.last());
                ((if keep {
                    t + rest.0
                } else {
                    rest.0
                }), rest.1, rest.2)
            },
        }
    }
}

/// The result of collecting one scoped region.
pub struct Collected {
    pub text: String,
    pub end: usize,
    pub closed: bool,
}

/// Starting immediately inside an open `tag`, concatenate all character
/// data nested under it, skipping data whose innermost open tag is in
/// `exclusions`, until the matching close of `tag` is seen at depth zero.
pub fn collect_until_close(
    events: &Vec<XmlEvent>,
    start: usize,
    tag: &str,
    exclusions: &NameList,
) -> (r: Collected)
    requires
        start <= events@.len(),
    ensures
        (r.text@, r.end as int, r.closed) == collect_spec(
            event_views(events@),
            start as int,
            tag@,
            exclusions@,
            Seq::<Seq<char>>::empty(),
        ),
{
    let ghost ev = event_views(events@);
    let ghost total = collect_spec(ev, start as int, tag@, exclusions@, Seq::<Seq<char>>::empty());
    let n = events.len();
    let mut i = start;
    let mut acc = String::new();
    let mut stack: Vec<String> = Vec::new();
    proof {
        assert(stack@.map_values(|s: String| s@) =~= Seq::<Seq<char>>::empty());
        assert(acc@ + total.0 =~= total.0);
    }
    while i < n
        invariant
            n == events@.len(),
            ev == event_views(events@),
            start <= i,
            i <= n,
            total == collect_spec(ev, start as int, tag@, exclusions@, Seq::<Seq<char>>::empty()),
            ({
                let cur = collect_spec(ev, i as int, tag@, exclusions@,
                    stack@.map_values(|s: String| s@));
                total.0 == acc@ + cur.0 && total.1 == cur.1 && total.2 == cur.2
            }),
        decreases n - i,
    {
        let ghost stackv = stack@.map_values(|s: String| s@);
        proof {
            assert(ev[i as int] == events@[i as int]@);
        }
        match &events[i] {
            XmlEvent::Open(t) => {
                stack.push(t.clone());
                proof {
                    assert(stack@.map_values(|s: String| s@) =~= stackv.push(t@));
                }
            },
            XmlEvent::Close(t) => {
                if stack.len() == 0 {
                    let closed = str_eq(t.as_str(), tag);
                    proof {
                        assert(stackv.len() == 0);
                        assert(acc@ + Seq::<char>::empty() =~= acc@);
                    }
                    return Collected { text: acc, end: i + 1, closed };
                }
                let _inner = stack.pop();
                proof {
                    assert(stack@.map_values(|s: String| s@) =~= stackv.drop_last());
                }
            },
            XmlEvent::Text(t) => {
                let keep = if stack.len() == 0 {
                    true
                } else {
                    !exclusions.contains(stack[stack.len() - 1].as_str())
                };
                proof {
                    if stackv.len() > 0 {
                        assert(stackv.last() == stack@[stack@.len() - 1]@);
                    }
                    assert(keep == (stackv.len() == 0 || !exclusions@.contains(stackv.last())));
                }
                if keep {
                    let ghost acc0 = acc@;
                    acc.append(t.as_str());
                    proof {
                        let rest = collect_spec(ev, i + 1, tag@, exclusions@, stackv);
                        assert((acc0 + (t@ + rest.0)) =~= (acc0 + t@) + rest.0);
                    }
                }
            },
        }
        i += 1;
    }
    proof {
        assert(acc@ + Seq::<char>::empty() =~= acc@);
    }
    Collected { text: acc, end: i, closed: false }
}

} // verus!
