use vstd::prelude::*;
use crate::json::same_text;

verus! {

/// A topic (its serialized bytes) with the identifiers of the listeners registered on it.
pub type TopicEntryView = (Seq<u8>, Seq<Seq<char>>);

/// The position of the first entry for `topic`, or -1 when there is none.
pub open spec fn topic_index(s: Seq<TopicEntryView>, topic: Seq<u8>) -> int
    decreases s.len(),
{
    if s.len() == 0 {
        -1
    } else if s[0].0 == topic {
        0
    } else {
        let r = topic_index(s.skip(1), topic);
        if r < 0 {
            -1
        } else {
            r + 1
        }
    }
}

/// The listeners registered on `topic`, in the order they were registered.
pub open spec fn listeners_of(s: Seq<TopicEntryView>, topic: Seq<u8>) -> Seq<Seq<char>> {
    let i = topic_index(s, topic);
    if i < 0 {
        seq![]
    } else {
        s[i].1
    }
}

/// No topic has two entries.
pub open spec fn topics_distinct(s: Seq<TopicEntryView>) -> bool {
    forall|i: int, j: int| 0 <= i < s.len() && 0 <= j < s.len() && i != j ==> s[i].0 != s[j].0
}

/// The position of the first listener equal to `id`, or -1.
pub open spec fn listener_index(ls: Seq<Seq<char>>, id: Seq<char>) -> int
    decreases ls.len(),
{
    if ls.len() == 0 {
        -1
    } else if ls[0] == id {
        0
    } else {
        let r = listener_index(ls.skip(1), id);
        if r < 0 {
            -1
        } else {
            r + 1
        }
    }
}

/// The entries after registering listener `id` on `topic`: appended to the topic's
/// listeners, or a new entry for the topic at the end.
pub open spec fn spec_register(s: Seq<TopicEntryView>, topic: Seq<u8>, id: Seq<char>) -> Seq<
    TopicEntryView,
> {
    let i = topic_index(s, topic);
    if i < 0 {
        s.push((topic, seq![id]))
    } else {
        s.update(i, (topic, s[i].1.push(id)))
    }
}

/// The entries after unregistering listener `id` from `topic`: when the topic has that
/// listener, its first occurrence is removed, and a topic left without listeners loses
/// its entry; otherwise nothing changes.
pub open spec fn spec_unregister(s: Seq<TopicEntryView>, topic: Seq<u8>, id: Seq<char>) -> Seq<
    TopicEntryView,
> {
    let i = topic_index(s, topic);
    if i < 0 {
        s
    } else {
        let p = listener_index(s[i].1, id);
        if p < 0 {
            s
        } else if s[i].1.len() > 1 {
            s.update(i, (topic, s[i].1.remove(p)))
        } else {
            s.remove(i)
        }
    }
}

/// `topic_index` finds the first entry for the topic, or -1 when none has it.
pub proof fn lemma_topic_index(s: Seq<TopicEntryView>, topic: Seq<u8>)
    ensures
        -1 <= topic_index(s, topic) < s.len(),
        topic_index(s, topic) >= 0 ==> s[topic_index(s, topic)].0 == topic,
        forall|j: int| 0 <= j < s.len() && (topic_index(s, topic) < 0 || j < topic_index(s, topic))
            ==> #[trigger] s[j].0 != topic,
    decreases s.len(),
{
    if s.len() > 0 && s[0].0 != topic {
        lemma_topic_index(s.skip(1), topic);
        assert forall|j: int|
            0 <= j < s.len() && (topic_index(s, topic) < 0 || j < topic_index(s, topic)) implies #[trigger] s[j].0
            != topic by {
            if j > 0 {
                assert(s[j] == s.skip(1)[j - 1]);
            }
        }
    }
}

/// `listener_index` finds the first occurrence of the identifier, or -1 when there is none.
pub proof fn lemma_listener_index(ls: Seq<Seq<char>>, id: Seq<char>)
    ensures
        -1 <= listener_index(ls, id) < ls.len(),
        listener_index(ls, id) >= 0 ==> ls[listener_index(ls, id)] == id,
        forall|j: int|
            0 <= j < ls.len() && (listener_index(ls, id) < 0 || j < listener_index(ls, id))
                ==> #[trigger] ls[j] != id,
    decreases ls.len(),
{
    if ls.len() > 0 && ls[0] != id {
        lemma_listener_index(ls.skip(1), id);
        assert forall|j: int|
            0 <= j < ls.len() && (listener_index(ls, id) < 0 || j < listener_index(ls, id)) implies #[trigger] ls[j]
            != id by {
            if j > 0 {
                assert(ls[j] == ls.skip(1)[j - 1]);
            }
        }
    }
}

/// Finding a topic in entries that differ from `s` only at position `k`, where the
/// topic at `k` is unchanged, gives the same position.
proof fn lemma_topic_index_update(s: Seq<TopicEntryView>, k: int, e: TopicEntryView, t: Seq<u8>)
    requires
        0 <= k < s.len(),
        e.0 == s[k].0,
    ensures
        topic_index(s.update(k, e), t) == topic_index(s, t),
{
    let u = s.update(k, e);
    lemma_topic_index(s, t);
    lemma_topic_index(u, t);
    let a = topic_index(s, t);
    let b = topic_index(u, t);
    if a >= 0 {
        assert(u[a].0 == t);
    }
    if b >= 0 {
        assert(s[b].0 == t);
    }
}

/// After a listener is registered on a topic, the topic's listeners are the earlier
/// ones followed by the new listener.
pub proof fn law_register_appends(s: Seq<TopicEntryView>, topic: Seq<u8>, id: Seq<char>)
    ensures
        listeners_of(spec_register(s, topic, id), topic) == listeners_of(s, topic).push(id),
{
    lemma_topic_index(s, topic);
    let i = topic_index(s, topic);
    if i < 0 {
        let r = s.push((topic, seq![id]));
        lemma_topic_index(r, topic);
        let j = topic_index(r, topic);
        assert(j == s.len()) by {
            assert(r[s.len() as int].0 == topic);
            if j >= 0 && j < s.len() {
                assert(r[j] == s[j]);
                assert(s[j].0 != topic);
            }
        }
        assert(Seq::<Seq<char>>::empty().push(id) =~= seq![id]);
    } else {
        lemma_topic_index_update(s, i, (topic, s[i].1.push(id)), topic);
    }
}

/// Registering a listener on one topic leaves the listeners of every other topic as
/// they were.
pub proof fn law_register_keeps_other_topics(
    s: Seq<TopicEntryView>,
    topic: Seq<u8>,
    other: Seq<u8>,
    id: Seq<char>,
)
    requires
        other != topic,
    ensures
        listeners_of(spec_register(s, topic, id), other) == listeners_of(s, other),
{
    lemma_topic_index(s, topic);
    lemma_topic_index(s, other);
    let i = topic_index(s, topic);
    if i < 0 {
        let r = s.push((topic, seq![id]));
        lemma_topic_index(r, other);
        let a = topic_index(s, other);
        let b = topic_index(r, other);
        if a >= 0 {
            assert(r[a] == s[a]);
        }
        if b >= 0 && b < s.len() {
            assert(r[b] == s[b]);
        }
    } else {
        lemma_topic_index_update(s, i, (topic, s[i].1.push(id)), other);
        let a = topic_index(s, other);
        if a >= 0 {
            assert(a != i);
        }
    }
}

/// Registering a listener on a topic that had none, then unregistering it from that
/// topic, gives back the registry as it was.
pub proof fn law_register_then_unregister(s: Seq<TopicEntryView>, topic: Seq<u8>, id: Seq<char>)
    requires
        topic_index(s, topic) < 0,
    ensures
        spec_unregister(spec_register(s, topic, id), topic, id) == s,
{
    lemma_topic_index(s, topic);
    let r = s.push((topic, seq![id]));
    lemma_topic_index(r, topic);
    let j = topic_index(r, topic);
    assert(j == s.len()) by {
        assert(r[s.len() as int].0 == topic);
        if j >= 0 && j < s.len() {
            assert(r[j] == s[j]);
            assert(s[j].0 != topic);
        }
    }
    assert(r[j].1 == seq![id]);
    assert(listener_index(seq![id], id) == 0);
    assert(r.remove(j) =~= s);
}

/// Registering a new listener on a topic that already has listeners, then
/// unregistering it from that topic, gives back the registry as it was.
pub proof fn law_register_then_unregister_shared(s: Seq<TopicEntryView>, topic: Seq<u8>, id: Seq<char>)
    requires
        listeners_of(s, topic).len() > 0,
        !listeners_of(s, topic).contains(id),
    ensures
        spec_unregister(spec_register(s, topic, id), topic, id) == s,
{
    lemma_topic_index(s, topic);
    let i = topic_index(s, topic);
    let l = s[i].1;
    let lp = l.push(id);
    lemma_topic_index_update(s, i, (topic, lp), topic);
    let r = spec_register(s, topic, id);
    assert(r[i] == (topic, lp));
    lemma_listener_index(lp, id);
    let p = listener_index(lp, id);
    assert(lp[l.len() as int] == id);
    assert(p == l.len()) by {
        if 0 <= p < l.len() {
            assert(lp[p] == l[p]);
            assert(l.contains(id));
        }
    }
    assert(lp.remove(p) =~= l);
    assert(r.update(i, (topic, l)) =~= s);
}

/// Unregistering a listener from one topic leaves the listeners of every other topic
/// as they were.
pub proof fn law_unregister_keeps_other_topics(
    s: Seq<TopicEntryView>,
    topic: Seq<u8>,
    other: Seq<u8>,
    id: Seq<char>,
)
    requires
        other != topic,
    ensures
        listeners_of(spec_unregister(s, topic, id), other) == listeners_of(s, other),
{
    lemma_topic_index(s, topic);
    lemma_topic_index(s, other);
    let i = topic_index(s, topic);
    let a = topic_index(s, other);
    if i >= 0 && listener_index(s[i].1, id) >= 0 {
        let p = listener_index(s[i].1, id);
        if s[i].1.len() > 1 {
            lemma_topic_index_update(s, i, (topic, s[i].1.remove(p)), other);
            if a >= 0 {
                assert(a != i);
            }
        } else {
            let r = s.remove(i);
            lemma_topic_index(r, other);
            let b = topic_index(r, other);
            assert forall|j: int| 0 <= j < r.len() implies #[trigger] r[j] == s[if j < i { j } else { j + 1 }] by {}
            if a >= 0 {
                assert(a != i);
                let a2 = if a < i { a } else { a - 1 };
                assert(r[a2] == s[a]);
                assert(b == a2) by {
                    if b < 0 || b > a2 {
                        assert(r[a2].0 == other);
                    } else if b < a2 {
                        let b2 = if b < i { b } else { b + 1 };
                        assert(r[b] == s[b2]);
                        assert(b2 < a);
                    }
                }
            } else {
                if b >= 0 {
                    let b2 = if b < i { b } else { b + 1 };
                    assert(r[b] == s[b2]);
                }
            }
        }
    }
}

/// `listener_index` finds an identifier exactly when the list contains it.
proof fn lemma_listener_index_contains(ls: Seq<Seq<char>>, id: Seq<char>)
    ensures
        listener_index(ls, id) >= 0 <==> ls.contains(id),
{
    lemma_listener_index(ls, id);
    if listener_index(ls, id) >= 0 {
        assert(ls[listener_index(ls, id)] == id);
    } else if ls.contains(id) {
        let j = choose|j: int| 0 <= j < ls.len() && ls[j] == id;
        assert(ls[j] != id);
    }
}

/// Unregistering a listener that is not registered on the topic changes nothing.
pub proof fn law_unregister_absent_keeps_registry(s: Seq<TopicEntryView>, topic: Seq<u8>, id: Seq<char>)
    requires
        !listeners_of(s, topic).contains(id),
    ensures
        spec_unregister(s, topic, id) == s,
{
    lemma_topic_index(s, topic);
    let i = topic_index(s, topic);
    if i >= 0 {
        lemma_listener_index_contains(s[i].1, id);
    }
}

/// Unregistering a listener that is registered on a topic removes its first occurrence
/// from that topic's listeners and keeps the others, in order.
pub proof fn law_unregister_removes_one(s: Seq<TopicEntryView>, topic: Seq<u8>, id: Seq<char>)
    requires
        topics_distinct(s),
        listeners_of(s, topic).contains(id),
    ensures
        listeners_of(spec_unregister(s, topic, id), topic) == listeners_of(s, topic).remove(
            listener_index(listeners_of(s, topic), id),
        ),
{
    lemma_topic_index(s, topic);
    let i = topic_index(s, topic);
    let l = s[i].1;
    lemma_listener_index_contains(l, id);
    lemma_listener_index(l, id);
    let p = listener_index(l, id);
    if l.len() > 1 {
        lemma_topic_index_update(s, i, (topic, l.remove(p)), topic);
    } else {
        let r = s.remove(i);
        lemma_topic_index(r, topic);
        let b = topic_index(r, topic);
        if b >= 0 {
            let b2 = if b < i { b } else { b + 1 };
            assert(r[b] == s[b2]);
            assert(s[b2].0 == s[i].0);
        }
        assert(l.remove(p) =~= Seq::<Seq<char>>::empty());
    }
}

/// Registering keeps every topic at most once among the entries.
pub proof fn law_register_keeps_topics_distinct(s: Seq<TopicEntryView>, topic: Seq<u8>, id: Seq<char>)
    requires
        topics_distinct(s),
    ensures
        topics_distinct(spec_register(s, topic, id)),
{
    lemma_topic_index(s, topic);
    let r = spec_register(s, topic, id);
    assert forall|a: int, b: int| 0 <= a < r.len() && 0 <= b < r.len() && a != b implies r[a].0
        != r[b].0 by {
        if topic_index(s, topic) < 0 {
            if a < s.len() && b < s.len() {
                assert(r[a] == s[a] && r[b] == s[b]);
            } else if a < s.len() {
                assert(r[a] == s[a]);
                assert(s[a].0 != topic);
            } else {
                assert(r[b] == s[b]);
                assert(s[b].0 != topic);
            }
        }
    }
}

/// Unregistering keeps every topic at most once among the entries.
pub proof fn law_unregister_keeps_topics_distinct(s: Seq<TopicEntryView>, topic: Seq<u8>, id: Seq<char>)
    requires
        topics_distinct(s),
    ensures
        topics_distinct(spec_unregister(s, topic, id)),
{
    lemma_topic_index(s, topic);
    let i = topic_index(s, topic);
    let r = spec_unregister(s, topic, id);
    if i >= 0 && listener_index(s[i].1, id) >= 0 && s[i].1.len() <= 1 {
        assert forall|a: int, b: int| 0 <= a < r.len() && 0 <= b < r.len() && a != b implies r[a].0
            != r[b].0 by {
            let a2 = if a < i { a } else { a + 1 };
            let b2 = if b < i { b } else { b + 1 };
            assert(r[a] == s[a2] && r[b] == s[b2]);
        }
    }
}

/// The message types whose messages the transport hands to listeners: published
/// messages (`UMESSAGE_TYPE_PUBLISH`, 1) and requests (`UMESSAGE_TYPE_REQUEST`, 2).
pub open spec fn handed_to_listeners(message_type: i32) -> bool {
    message_type == 1 || message_type == 2
}

/// The view of a list of listener identifiers.
pub open spec fn ids_view(ids: Seq<String>) -> Seq<Seq<char>> {
    ids.map_values(|s: String| s@)
}

/// The view of one entry.
pub open spec fn entry_view(e: (Vec<u8>, Vec<String>)) -> TopicEntryView {
    (e.0@, ids_view(e.1@))
}

/// The view of a list of entries.
pub open spec fn entries_view(entries: Seq<(Vec<u8>, Vec<String>)>) -> Seq<TopicEntryView> {
    entries.map_values(|e: (Vec<u8>, Vec<String>)| entry_view(e))
}

/// The listeners registered on each topic, as a transport keeps them.
pub struct ListenerRegistry {
    entries: Vec<(Vec<u8>, Vec<String>)>,
}

impl View for ListenerRegistry {
    type V = Seq<TopicEntryView>;

    closed spec fn view(&self) -> Seq<TopicEntryView> {
        entries_view(self.entries@)
    }
}

fn bytes_equal(a: &Vec<u8>, b: &Vec<u8>) -> (r: bool)
    ensures
        r == (a@ == b@),
{
    if a.len() != b.len() {
        return false;
    }
    let mut i: usize = 0;
    while i < a.len()
        invariant
            i <= a.len() == b.len(),
            forall|k: int| 0 <= k < i ==> a@[k] == b@[k],
        decreases a.len() - i,
    {
        if a[i] != b[i] {
            assert(a@[i as int] != b@[i as int]);
            return false;
        }
        i = i + 1;
    }
    assert(a@ =~= b@);
    true
}

impl ListenerRegistry {
    /// No topic has two entries.
    #[verifier::type_invariant]
    closed spec fn well_formed(&self) -> bool {
        topics_distinct(self@)
    }

    /// A registry without listeners.
    pub fn new() -> (r: ListenerRegistry)
        ensures
            r@ == Seq::<TopicEntryView>::empty(),
            topics_distinct(r@),
    {
        let r = ListenerRegistry { entries: Vec::new() };
        assert(r@ =~= Seq::<TopicEntryView>::empty());
        r
    }

    fn find_topic(entries: &Vec<(Vec<u8>, Vec<String>)>, topic: &Vec<u8>) -> (r: Option<usize>)
        ensures
            r matches Some(i) ==> topic_index(entries_view(entries@), topic@) == i as int && i
                < entries.len(),
            r is None ==> topic_index(entries_view(entries@), topic@) == -1,
    {
        let ghost s = entries_view(entries@);
        proof {
            lemma_topic_index(s, topic@);
        }
        let mut i: usize = 0;
        while i < entries.len()
            invariant
                i <= entries.len(),
                s == entries_view(entries@),
                s.len() == entries@.len(),
                forall|j: int| 0 <= j < i ==> #[trigger] s[j].0 != topic@,
                -1 <= topic_index(s, topic@) < s.len(),
                topic_index(s, topic@) >= 0 ==> s[topic_index(s, topic@)].0 == topic@,
                forall|j: int|
                    0 <= j < s.len() && (topic_index(s, topic@) < 0 || j < topic_index(s, topic@))
                        ==> #[trigger] s[j].0 != topic@,
            decreases entries.len() - i,
        {
            assert(s[i as int] == entry_view(entries@[i as int]));
            if bytes_equal(&entries[i].0, topic) {
                assert(s[i as int].0 == topic@);
                return Some(i);
            }
            i = i + 1;
        }
        None
    }

    /// The identifiers of the listeners registered on `topic`, in registration order.
    pub fn listeners(&self, topic: &Vec<u8>) -> (r: Vec<String>)
        ensures
            ids_view(r@) == listeners_of(self@, topic@),
    {
        match Self::find_topic(&self.entries, topic) {
            Some(i) => {
                assert(self@[i as int] == entry_view(self.entries@[i as int]));
                self.entries[i].1.clone()
            },
            None => {
                let r: Vec<String> = Vec::new();
                assert(ids_view(r@) =~= Seq::<Seq<char>>::empty());
                r
            },
        }
    }

    /// The listeners that a message received from the dispatcher is handed to: those
    /// registered on its source topic. Only published messages and requests are
    /// handed out.
    pub fn listeners_for_message(&self, message_type: i32, source: &Vec<u8>) -> (r: Vec<String>)
        requires
            handed_to_listeners(message_type),
        ensures
            ids_view(r@) == listeners_of(self@, source@),
    {
        self.listeners(source)
    }

    /// Registers listener `id` on `topic`.
    pub fn register_listener(&mut self, topic: Vec<u8>, id: String)
        ensures
            final(self)@ == spec_register(old(self)@, topic@, id@),
            topics_distinct(old(self)@),
            topics_distinct(final(self)@),
            listeners_of(final(self)@, topic@) == listeners_of(old(self)@, topic@).push(id@),
            forall|t: Seq<u8>|
                t != topic@ ==> #[trigger] listeners_of(final(self)@, t) == listeners_of(
                    old(self)@,
                    t,
                ),
    {
        proof {
            use_type_invariant(&*self);
        }
        let ghost before = self@;
        let mut entries: Vec<(Vec<u8>, Vec<String>)> = Vec::new();
        std::mem::swap(&mut entries, &mut self.entries);
        assert(entries_view(entries@) == before);
        proof {
            lemma_topic_index(before, topic@);
        }
        match Self::find_topic(&entries, &topic) {
            Some(i) => {
                let mut e = entries.remove(i);
                e.1.push(id);
                entries.insert(i, e);
                assert(ids_view(e.1@) =~= before[i as int].1.push(id@));
                assert(entries_view(entries@) =~= before.update(
                    i as int,
                    (topic@, before[i as int].1.push(id@)),
                ));
            },
            None => {
                let mut ids: Vec<String> = Vec::new();
                ids.push(id);
                entries.push((topic, ids));
                assert(ids_view(ids@) =~= seq![id@]);
                assert(entries_view(entries@) =~= before.push((topic@, seq![id@])));
            },
        }
        proof {
            law_register_keeps_topics_distinct(before, topic@, id@);
            law_register_appends(before, topic@, id@);
            assert forall|t: Seq<u8>| t != topic@ implies #[trigger] listeners_of(
                spec_register(before, topic@, id@),
                t,
            ) == listeners_of(before, t) by {
                law_register_keeps_other_topics(before, topic@, t, id@);
            }
        }
        self.entries = entries;
    }

    fn find_listener(ids: &Vec<String>, id: &str) -> (r: Option<usize>)
        ensures
            r matches Some(p) ==> listener_index(ids_view(ids@), id@) == p as int && p < ids.len(),
            r is None ==> listener_index(ids_view(ids@), id@) == -1,
    {
        let ghost ls = ids_view(ids@);
        proof {
            lemma_listener_index(ls, id@);
        }
        let mut p: usize = 0;
        while p < ids.len()
            invariant
                p <= ids.len(),
                ls == ids_view(ids@),
                ls.len() == ids@.len(),
                forall|j: int| 0 <= j < p ==> #[trigger] ls[j] != id@,
                -1 <= listener_index(ls, id@) < ls.len(),
                listener_index(ls, id@) >= 0 ==> ls[listener_index(ls, id@)] == id@,
                forall|j: int|
                    0 <= j < ls.len() && (listener_index(ls, id@) < 0 || j < listener_index(ls, id@))
                        ==> #[trigger] ls[j] != id@,
            decreases ids.len() - p,
        {
            assert(ls[p as int] == ids@[p as int]@);
            if same_text(ids[p].as_str(), id) {
                return Some(p);
            }
            p = p + 1;
        }
        None
    }

    /// Unregisters listener `id` from `topic`, as `spec_unregister` says. Reports whether
    /// the listener was registered on the topic; when it was not, nothing changes.
    pub fn unregister_listener(&mut self, topic: &Vec<u8>, id: &str) -> (r: bool)
        ensures
            final(self)@ == spec_unregister(old(self)@, topic@, id@),
            r == listeners_of(old(self)@, topic@).contains(id@),
            !r ==> final(self)@ == old(self)@,
            topics_distinct(old(self)@),
            topics_distinct(final(self)@),
            r ==> listeners_of(final(self)@, topic@) == listeners_of(old(self)@, topic@).remove(
                listener_index(listeners_of(old(self)@, topic@), id@),
            ),
            forall|t: Seq<u8>|
                t != topic@ ==> #[trigger] listeners_of(final(self)@, t) == listeners_of(
                    old(self)@,
                    t,
                ),
    {
        proof {
            use_type_invariant(&*self);
        }
        let ghost before = self@;
        let mut entries: Vec<(Vec<u8>, Vec<String>)> = Vec::new();
        std::mem::swap(&mut entries, &mut self.entries);
        assert(entries_view(entries@) == before);
        proof {
            lemma_topic_index(before, topic@);
        }
        let mut found = false;
        if let Some(i) = Self::find_topic(&entries, topic) {
            assert(before[i as int] == entry_view(entries@[i as int]));
            proof {
                lemma_listener_index_contains(before[i as int].1, id@);
            }
            if let Some(p) = Self::find_listener(&entries[i].1, id) {
                found = true;
                if entries[i].1.len() > 1 {
                    let mut e = entries.remove(i);
                    let ghost ls = ids_view(e.1@);
                    assert(ls == before[i as int].1);
                    e.1.remove(p);
                    assert(ids_view(e.1@) =~= ls.remove(p as int));
                    entries.insert(i, e);
                    assert(entries_view(entries@) =~= before.update(
                        i as int,
                        (topic@, before[i as int].1.remove(p as int)),
                    ));
                } else {
                    entries.remove(i);
                    assert(entries_view(entries@) =~= before.remove(i as int));
                }
            }
        }
        proof {
            law_unregister_keeps_topics_distinct(before, topic@, id@);
            if !listeners_of(before, topic@).contains(id@) {
                law_unregister_absent_keeps_registry(before, topic@, id@);
            } else {
                law_unregister_removes_one(before, topic@, id@);
            }
            assert forall|t: Seq<u8>| t != topic@ implies #[trigger] listeners_of(
                spec_unregister(before, topic@, id@),
                t,
            ) == listeners_of(before, t) by {
                law_unregister_keeps_other_topics(before, topic@, t, id@);
            }
        }
        self.entries = entries;
        found
    }
}

} // verus!
