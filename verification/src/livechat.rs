//! Reading a replayed live chat: each line of a yt-dlp `*.live_chat.json`
//! file is one JSON value (read with `serde_json`), and the chat messages
//! are found at fixed places in it.

use vstd::prelude::*;
use crate::text::{chars_of, string_of};
use crate::text::split::{trim, split_seq, views, split_chars, trim_chars};
use crate::text::scan::{all_digits, digits_value, unsigned_digits, parse_u64, parse_u64_spec};

verus! {

/// A JSON value, as one line of a live-chat replay reads. A number keeps the
/// text it was written with; an object keeps its members in order.
#[derive(Debug)]
pub enum Json {
    Null,
    Bool(bool),
    Number(String),
    Str(String),
    Array(Vec<Json>),
    Object(Vec<(String, Json)>),
}

/// A chat message as read from a live-chat replay: its position, when it was
/// sent, who sent it and what it said.
#[derive(Clone, Debug)]
pub struct LiveChatMessage {
    pub idx: u64,
    pub time: String,
    pub timestamp_usec: i64,
    pub author: String,
    pub channel_id: String,
    pub message: String,
    pub msg_type: String,
    pub amount: String,
}

/// A message as its position, time text, time in microseconds, author,
/// channel id, text, kind and amount.
pub type MessageSpec = (u64, Seq<char>, i64, Seq<char>, Seq<char>, Seq<char>, Seq<char>, Seq<char>);

impl View for LiveChatMessage {
    type V = MessageSpec;

    open spec fn view(&self) -> MessageSpec {
        (
            self.idx,
            self.time@,
            self.timestamp_usec,
            self.author@,
            self.channel_id@,
            self.message@,
            self.msg_type@,
            self.amount@,
        )
    }
}

/// The first member of `members`, from `i` on, named `key`, or -1.
pub open spec fn member_index(members: Seq<(String, Json)>, key: Seq<char>, i: int) -> int
    decreases members.len() - i,
{
    if i < 0 || i >= members.len() {
        -1
    } else if members[i].0@ == key {
        i
    } else {
        member_index(members, key, i + 1)
    }
}

/// The member of `v` named `key`: `Value::get` with a key, which finds
/// nothing in anything but an object.
pub open spec fn get_spec(v: Json, key: Seq<char>) -> Option<Json> {
    match v {
        Json::Object(members) => {
            let k = member_index(members@, key, 0);
            if k >= 0 {
                Some(members@[k].1)
            } else {
                None
            }
        },
        _ => None,
    }
}

/// The member `a`, then its member `b`: `Value::pointer` with `/a/b`.
pub open spec fn get2_spec(v: Json, a: Seq<char>, b: Seq<char>) -> Option<Json> {
    match get_spec(v, a) {
        Some(w) => get_spec(w, b),
        None => None,
    }
}

/// The text of a value that is a string, or nothing.
pub open spec fn str_or_empty(v: Option<Json>) -> Seq<char> {
    match v {
        Some(Json::Str(s)) => s@,
        _ => Seq::empty(),
    }
}

/// Whether two strings are equal.
pub fn str_eq(a: &str, b: &str) -> (r: bool)
    ensures
        r == (a@ == b@),
{
    let x = chars_of(a);
    let y = chars_of(b);
    crate::subtitle_merge::transcript::chars_eq(x.as_slice(), y.as_slice())
}

/// The member of `v` named `key`.
pub fn get<'a>(v: &'a Json, key: &str) -> (r: Option<&'a Json>)
    ensures
        match r {
            Some(w) => get_spec(*v, key@) == Some(*w),
            None => get_spec(*v, key@) is None,
        },
{
    match v {
        Json::Object(members) => {
            let mut i: usize = 0;
            let ghost k = member_index(members@, key@, 0);
            assert(get_spec(*v, key@) == if k >= 0 {
                Some(members@[k].1)
            } else {
                None
            });
            while i < members.len()
                invariant
                    0 <= i <= members@.len(),
                    k == member_index(members@, key@, 0),
                    get_spec(*v, key@) == if k >= 0 {
                        Some(members@[k].1)
                    } else {
                        None
                    },
                    member_index(members@, key@, 0) == member_index(members@, key@, i as int),
                decreases members@.len() - i,
            {
                let name = members[i].0.as_str();
                assert(name@ == members@[i as int].0@);
                if str_eq(name, key) {
                    assert(member_index(members@, key@, i as int) == i);
                    return Some(&members[i].1);
                }
                i = i + 1;
            }
            None
        },
        _ => None,
    }
}

/// The member `a` of `v`, then its member `b`.
pub fn get2<'a>(v: &'a Json, a: &str, b: &str) -> (r: Option<&'a Json>)
    ensures
        match r {
            Some(w) => get2_spec(*v, a@, b@) == Some(*w),
            None => get2_spec(*v, a@, b@) is None,
        },
{
    match get(v, a) {
        Some(w) => get(w, b),
        None => None,
    }
}

/// The text of a value that is a string, or the empty string.
pub fn str_of(v: Option<&Json>) -> (r: String)
    ensures
        r@ == str_or_empty(
            match v {
                Some(w) => Some(*w),
                None => None,
            },
        ),
{
    match v {
        Some(Json::Str(s)) => s.clone(),
        _ => String::new(),
    }
}

/// The text of one run: its `text` member where that is a string.
pub open spec fn run_text(r: Json) -> Seq<char> {
    str_or_empty(get_spec(r, "text"@))
}

/// The texts of `runs` one after another.
pub open spec fn runs_from(runs: Seq<Json>) -> Seq<char>
    decreases runs.len(),
{
    if runs.len() == 0 {
        Seq::empty()
    } else {
        runs_from(runs.drop_last()) + run_text(runs.last())
    }
}

/// The text of a list of runs; nothing where it is not a list.
pub open spec fn runs_text_spec(v: Option<Json>) -> Seq<char> {
    match v {
        Some(Json::Array(runs)) => runs_from(runs@),
        _ => Seq::empty(),
    }
}

fn opt_view(v: Option<&Json>) -> (r: Ghost<Option<Json>>)
    ensures
        r@ == match v {
            Some(w) => Some(*w),
            None => None,
        },
{
    Ghost(
        match v {
            Some(w) => Some(*w),
            None => None,
        },
    )
}

/// The texts of the runs in `v`, one after another.
pub fn runs_text(v: Option<&Json>) -> (r: String)
    ensures
        r@ == runs_text_spec(
            match v {
                Some(w) => Some(*w),
                None => None,
            },
        ),
{
    match v {
        Some(Json::Array(runs)) => {
            let mut out: Vec<char> = Vec::new();
            let mut i: usize = 0;
            assert(runs@.take(0) =~= Seq::<Json>::empty());
            while i < runs.len()
                invariant
                    0 <= i <= runs@.len(),
                    out@ == runs_from(runs@.take(i as int)),
                decreases runs@.len() - i,
            {
                let t = str_of(get(&runs[i], "text"));
                proof {
                    reveal_strlit("text");
                }
                let tc = chars_of(t.as_str());
                crate::text::split::extend_chars(&mut out, tc.as_slice());
                assert(runs@.take(i + 1).drop_last() =~= runs@.take(i as int));
                assert(runs@.take(i + 1).last() == runs@[i as int]);
                i = i + 1;
            }
            assert(runs@.take(runs@.len() as int) =~= runs@);
            string_of(out.as_slice())
        },
        _ => String::new(),
    }
}

/// What `str::parse::<i64>` gives for `s`: an optional sign, then one or
/// more ASCII digits whose value fits in 64 signed bits.
pub open spec fn parse_i64_spec(s: Seq<char>) -> Option<i64> {
    if s.len() > 0 && s[0] == '-' {
        let d = s.drop_first();
        if d.len() > 0 && all_digits(d) && digits_value(d) <= 0x8000_0000_0000_0000 {
            Some((-digits_value(d)) as i64)
        } else {
            None
        }
    } else {
        let d = unsigned_digits(s);
        if d.len() > 0 && all_digits(d) && digits_value(d) <= i64::MAX {
            Some(digits_value(d) as i64)
        } else {
            None
        }
    }
}

/// `str::parse::<i64>` on the characters of `s`.
pub fn parse_i64(s: &[char]) -> (r: Option<i64>)
    ensures
        r == parse_i64_spec(s@),
{
    if s.len() > 0 && s[0] == '-' {
        let rest = crate::text::split::slice_vec(s, 1, s.len());
        assert(rest@ =~= s@.drop_first());
        if rest.len() == 0 || rest[0] == '+' {
            proof {
                if rest@.len() > 0 {
                    assert(!crate::text::scan::is_digit(rest@[0]));
                }
            }
            return None;
        }
        assert(unsigned_digits(rest@) == rest@);
        match parse_u64(rest.as_slice()) {
            None => None,
            Some(v) => {
                assert(parse_u64_spec(rest@) == Some(v));
                assert(all_digits(rest@));
                proof {
                    crate::text::scan::lemma_digits_bound(rest@);
                }
                assert(v == digits_value(rest@));
                if v > 0x8000_0000_0000_0000u64 {
                    None
                } else if v == 0x8000_0000_0000_0000u64 {
                    assert(digits_value(rest@) == 0x8000_0000_0000_0000);
                    assert((-0x8000_0000_0000_0000int) as i64 == i64::MIN);
                    Some(i64::MIN)
                } else {
                    let n = v as i64;
                    assert(digits_value(rest@) == n);
                    assert((-digits_value(rest@)) as i64 == -n);
                    Some(-n)
                }
            },
        }
    } else {
        match parse_u64(s) {
            None => None,
            Some(v) => {
                let ghost d = unsigned_digits(s@);
                assert(parse_u64_spec(s@) == Some(v));
                assert(all_digits(d));
                proof {
                    crate::text::scan::lemma_digits_bound(d);
                }
                assert(v == digits_value(d));
                if v > 0x7fff_ffff_ffff_ffffu64 {
                    None
                } else {
                    assert(digits_value(unsigned_digits(s@)) == v);
                    Some(v as i64)
                }
            },
        }
    }
}

/// The message that a renderer holds: its text from `message.runs`, or
/// from `headerSubtext.runs` where there is no `message.runs`; its time text,
/// microseconds (0 where they do not read), author, channel id and amount,
/// each empty where missing; `kind` and `idx` as given.
pub open spec fn renderer_spec(r: Json, kind: Seq<char>, idx: u64) -> MessageSpec {
    let text = match get2_spec(r, "message"@, "runs"@) {
        Some(m) => runs_text_spec(Some(m)),
        None => runs_text_spec(get2_spec(r, "headerSubtext"@, "runs"@)),
    };
    let usec = match parse_i64_spec(str_or_empty(get_spec(r, "timestampUsec"@))) {
        Some(n) => n,
        None => 0,
    };
    (
        idx,
        str_or_empty(get2_spec(r, "timestampText"@, "simpleText"@)),
        usec,
        str_or_empty(get2_spec(r, "authorName"@, "simpleText"@)),
        str_or_empty(get_spec(r, "authorExternalChannelId"@)),
        text,
        kind,
        str_or_empty(get2_spec(r, "purchaseAmountText"@, "simpleText"@)),
    )
}

fn text_at(r: &Json, a: &str, b: &str) -> (s: String)
    ensures
        s@ == str_or_empty(get2_spec(*r, a@, b@)),
{
    str_of(get2(r, a, b))
}

/// The message that the renderer `r` holds.
pub fn parse_renderer(r: &Json, kind: &str, idx: u64) -> (m: LiveChatMessage)
    ensures
        m@ == renderer_spec(*r, kind@, idx),
{
    let text = match get2(r, "message", "runs") {
        Some(m) => runs_text(Some(m)),
        None => runs_text(get2(r, "headerSubtext", "runs")),
    };
    let usec_text = str_of(get(r, "timestampUsec"));
    let uc = chars_of(usec_text.as_str());
    let usec = match parse_i64(uc.as_slice()) {
        Some(n) => n,
        None => 0,
    };
    LiveChatMessage {
        idx,
        time: text_at(r, "timestampText", "simpleText"),
        timestamp_usec: usec,
        author: text_at(r, "authorName", "simpleText"),
        channel_id: str_of(get(r, "authorExternalChannelId")),
        message: text,
        msg_type: kind.to_string(),
        amount: text_at(r, "purchaseAmountText", "simpleText"),
    }
}

/// The renderer that one replayed action adds, with its kind: the item under
/// `addChatItemAction` holding a text, paid or membership renderer, tried in
/// that order; none for any other action.
pub open spec fn action_item(action: Json) -> Option<(Seq<char>, Json)> {
    match get2_spec(action, "addChatItemAction"@, "item"@) {
        None => None,
        Some(item) => match get_spec(item, "liveChatTextMessageRenderer"@) {
            Some(r) => Some(("text"@, r)),
            None => match get_spec(item, "liveChatPaidMessageRenderer"@) {
                Some(r) => Some(("paid"@, r)),
                None => match get_spec(item, "liveChatMembershipItemRenderer"@) {
                    Some(r) => Some(("membership"@, r)),
                    None => None,
                },
            },
        },
    }
}

/// The renderers that `actions` add, in order.
pub open spec fn actions_items(actions: Seq<Json>) -> Seq<(Seq<char>, Json)>
    decreases actions.len(),
{
    if actions.len() == 0 {
        Seq::empty()
    } else {
        let rest = actions_items(actions.drop_last());
        match action_item(actions.last()) {
            Some(x) => rest.push(x),
            None => rest,
        }
    }
}

/// The renderers that one replay line adds: those of the actions under
/// `replayChatItemAction`; none where there is no list of actions.
pub open spec fn root_items(root: Json) -> Seq<(Seq<char>, Json)> {
    match get2_spec(root, "replayChatItemAction"@, "actions"@) {
        Some(Json::Array(actions)) => actions_items(actions@),
        _ => Seq::empty(),
    }
}

/// The renderers that the replay lines `roots` add, in order.
pub open spec fn roots_items(roots: Seq<Json>) -> Seq<(Seq<char>, Json)>
    decreases roots.len(),
{
    if roots.len() == 0 {
        Seq::empty()
    } else {
        roots_items(roots.drop_last()) + root_items(roots.last())
    }
}

/// The messages of `items`, numbered from 1.
pub open spec fn messages_of_items(items: Seq<(Seq<char>, Json)>) -> Seq<MessageSpec> {
    Seq::new(items.len(), |k: int| renderer_spec(items[k].1, items[k].0, (k + 1) as u64))
}

pub open spec fn messages_view(v: Seq<LiveChatMessage>) -> Seq<MessageSpec> {
    Seq::new(v.len(), |i: int| v[i]@)
}

/// The renderer that `action` adds, with its kind.
pub fn action_renderer<'a>(action: &'a Json) -> (r: Option<(&'static str, &'a Json)>)
    ensures
        match r {
            Some((k, w)) => action_item(*action) == Some((k@, *w)),
            None => action_item(*action) is None,
        },
{
    proof {
        reveal_strlit("text");
        reveal_strlit("paid");
        reveal_strlit("membership");
    }
    let item = match get2(action, "addChatItemAction", "item") {
        Some(i) => i,
        None => {
            return None;
        },
    };
    if let Some(r) = get(item, "liveChatTextMessageRenderer") {
        return Some(("text", r));
    }
    if let Some(r) = get(item, "liveChatPaidMessageRenderer") {
        return Some(("paid", r));
    }
    if let Some(r) = get(item, "liveChatMembershipItemRenderer") {
        return Some(("membership", r));
    }
    None
}

proof fn lemma_actions_prefix(a: Seq<Json>, j: int)
    requires
        0 <= j <= a.len(),
    ensures
        actions_items(a.take(j)).len() <= actions_items(a).len(),
    decreases a.len(),
{
    if j < a.len() {
        lemma_actions_prefix(a.drop_last(), j);
        assert(a.drop_last().take(j) =~= a.take(j));
    } else {
        assert(a.take(j) =~= a);
    }
}

proof fn lemma_roots_prefix(r: Seq<Json>, i: int)
    requires
        0 <= i <= r.len(),
    ensures
        roots_items(r.take(i)).len() <= roots_items(r).len(),
    decreases r.len(),
{
    if i < r.len() {
        lemma_roots_prefix(r.drop_last(), i);
        assert(r.drop_last().take(i) =~= r.take(i));
    } else {
        assert(r.take(i) =~= r);
    }
}

/// The messages that the replay lines `roots` hold, numbered from 1 in the
/// order they come.
#[verifier::rlimit(40)]
pub fn messages_of(roots: &[Json]) -> (r: Vec<LiveChatMessage>)
    requires
        roots_items(roots@).len() < u64::MAX,
    ensures
        messages_view(r@) == messages_of_items(roots_items(roots@)),
{
    let mut out: Vec<LiveChatMessage> = Vec::new();
    let mut i: usize = 0;
    assert(roots@.take(0) =~= Seq::<Json>::empty());
    while i < roots.len()
        invariant
            0 <= i <= roots@.len(),
            roots_items(roots@).len() < u64::MAX,
            messages_view(out@) == messages_of_items(roots_items(roots@.take(i as int))),
        decreases roots@.len() - i,
    {
        let ghost before = roots_items(roots@.take(i as int));
        assert(roots@.take(i + 1).drop_last() =~= roots@.take(i as int));
        assert(roots@.take(i + 1).last() == roots@[i as int]);
        assert(roots_items(roots@.take(i + 1)) == before + root_items(roots@[i as int]));
        proof {
            lemma_roots_prefix(roots@, i + 1);
        }
        let root = &roots[i];
        match get2(root, "replayChatItemAction", "actions") {
            Some(Json::Array(actions)) => {
                let mut j: usize = 0;
                assert(actions@.take(0) =~= Seq::<Json>::empty());
                assert(root_items(*root) == actions_items(actions@));
                while j < actions.len()
                    invariant
                        0 <= j <= actions@.len(),
                        root_items(*root) == actions_items(actions@),
                        before.len() + actions_items(actions@).len() < u64::MAX,
                        messages_view(out@) == messages_of_items(
                            before + actions_items(actions@.take(j as int)),
                        ),
                    decreases actions@.len() - j,
                {
                    let ghost done = before + actions_items(actions@.take(j as int));
                    assert(actions@.take(j + 1).drop_last() =~= actions@.take(j as int));
                    assert(actions@.take(j + 1).last() == actions@[j as int]);
                    proof {
                        lemma_actions_prefix(actions@, j + 1);
                    }
                    match action_renderer(&actions[j]) {
                        Some((kind, r)) => {
                            assert(actions_items(actions@.take(j + 1)) == actions_items(
                                actions@.take(j as int),
                            ).push((kind@, *r)));
                            let n = out.len();
                            assert(messages_view(out@).len() == out@.len());
                            assert(messages_of_items(done).len() == done.len());
                            assert(n == done.len());
                            let m = parse_renderer(r, kind, (n as u64) + 1);
                            let ghost old_out = out@;
                            out.push(m);
                            let ghost nd = done.push((kind@, *r));
                            assert(before + actions_items(actions@.take(j + 1)) =~= nd);
                            assert forall|k: int| 0 <= k < out@.len() implies #[trigger] messages_view(out@)[k]
                                == messages_of_items(nd)[k] by {
                                if k < n {
                                    assert(out@[k] == old_out[k]);
                                    assert(messages_view(old_out)[k] == messages_of_items(done)[k]);
                                    assert(nd[k] == done[k]);
                                } else {
                                    assert(out@[k] == m);
                                    assert(nd[k] == (kind@, *r));
                                }
                            }
                            assert(messages_view(out@) =~= messages_of_items(nd));
                        },
                        None => {
                            assert(actions_items(actions@.take(j + 1)) == actions_items(
                                actions@.take(j as int),
                            ));
                        },
                    }
                    j = j + 1;
                }
                assert(actions@.take(actions@.len() as int) =~= actions@);
            },
            _ => {
                assert(root_items(*root) == Seq::<(Seq<char>, Json)>::empty());
                assert(before + root_items(*root) =~= before);
            },
        }
        i = i + 1;
    }
    assert(roots@.take(roots@.len() as int) =~= roots@);
    out
}

/// How many messages the replay lines `roots` hold, or `u64::MAX` where
/// there are that many or more.
#[verifier::rlimit(30)]
pub fn item_count(roots: &[Json]) -> (r: u64)
    ensures
        r == if roots_items(roots@).len() < u64::MAX {
            roots_items(roots@).len() as u64
        } else {
            u64::MAX
        },
{
    let mut count: u64 = 0;
    let mut i: usize = 0;
    assert(roots@.take(0) =~= Seq::<Json>::empty());
    while i < roots.len()
        invariant
            0 <= i <= roots@.len(),
            count < u64::MAX,
            count == roots_items(roots@.take(i as int)).len(),
        decreases roots@.len() - i,
    {
        let ghost before = roots_items(roots@.take(i as int));
        assert(roots@.take(i + 1).drop_last() =~= roots@.take(i as int));
        assert(roots@.take(i + 1).last() == roots@[i as int]);
        assert(roots_items(roots@.take(i + 1)) == before + root_items(roots@[i as int]));
        let root = &roots[i];
        match get2(root, "replayChatItemAction", "actions") {
            Some(Json::Array(actions)) => {
                let mut j: usize = 0;
                assert(actions@.take(0) =~= Seq::<Json>::empty());
                assert(root_items(*root) == actions_items(actions@));
                while j < actions.len()
                    invariant
                        0 <= j <= actions@.len(),
                        root_items(*root) == actions_items(actions@),
                        i < roots@.len(),
                        *root == roots@[i as int],
                        roots_items(roots@.take(i + 1)) == before + root_items(roots@[i as int]),
                        count < u64::MAX,
                        count == before.len() + actions_items(actions@.take(j as int)).len(),
                    decreases actions@.len() - j,
                {
                    assert(actions@.take(j + 1).drop_last() =~= actions@.take(j as int));
                    assert(actions@.take(j + 1).last() == actions@[j as int]);
                    let found = action_renderer(&actions[j]);
                    if found.is_some() {
                        assert(actions_items(actions@.take(j + 1)).len() == actions_items(
                            actions@.take(j as int),
                        ).len() + 1);
                        if count == u64::MAX - 1 {
                            proof {
                                lemma_actions_prefix(actions@, j + 1);
                                lemma_roots_prefix(roots@, i + 1);
                            }
                            return u64::MAX;
                        }
                        count = count + 1;
                    } else {
                        assert(actions_items(actions@.take(j + 1)) == actions_items(
                            actions@.take(j as int),
                        ));
                    }
                    j = j + 1;
                }
                assert(actions@.take(actions@.len() as int) =~= actions@);
            },
            _ => {
                assert(root_items(*root) == Seq::<(Seq<char>, Json)>::empty());
            },
        }
        i = i + 1;
    }
    assert(roots@.take(roots@.len() as int) =~= roots@);
    count
}

/// The lines of `s`, trimmed, without the empty ones.
pub open spec fn filled_lines(parts: Seq<Seq<char>>) -> Seq<Seq<char>>
    decreases parts.len(),
{
    if parts.len() == 0 {
        Seq::empty()
    } else {
        let rest = filled_lines(parts.drop_last());
        let t = trim(parts.last());
        if t.len() > 0 {
            rest.push(t)
        } else {
            rest
        }
    }
}

/// The replay lines of a live-chat file: its lines, as `str::lines` gives
/// them, trimmed, the empty ones left out.
pub open spec fn chat_lines_spec(s: Seq<char>) -> Seq<Seq<char>> {
    filled_lines(split_seq(s, seq!['\n']))
}

pub open spec fn strings_view(v: Seq<String>) -> Seq<Seq<char>> {
    Seq::new(v.len(), |i: int| v[i]@)
}

/// The replay lines of a live-chat file.
pub fn chat_lines(ndjson: &str) -> (r: Vec<String>)
    ensures
        strings_view(r@) == chat_lines_spec(ndjson@),
{
    let cs = chars_of(ndjson);
    let sep = vec!['\n'];
    assert(sep@ =~= seq!['\n']);
    let parts = split_chars(cs.as_slice(), sep.as_slice());
    let ghost p = views(parts@);
    let mut out: Vec<String> = Vec::new();
    let mut i: usize = 0;
    assert(p.take(0) =~= Seq::<Seq<char>>::empty());
    while i < parts.len()
        invariant
            0 <= i <= parts@.len(),
            p == views(parts@),
            p == split_seq(ndjson@, seq!['\n']),
            strings_view(out@) == filled_lines(p.take(i as int)),
        decreases parts@.len() - i,
    {
        assert(p.take(i + 1).drop_last() =~= p.take(i as int));
        assert(p.take(i + 1).last() == parts@[i as int]@);
        let t = trim_chars(parts[i].as_slice());
        if t.len() > 0 {
            let ghost before = out@;
            out.push(string_of(t.as_slice()));
            assert(strings_view(out@) =~= strings_view(before).push(t@));
        }
        i = i + 1;
    }
    assert(p.take(parts@.len() as int) =~= p);
    out
}

/// `serde_json::Value`, a parsed JSON value.
#[verifier::external_type_specification]
#[verifier::external_body]
pub struct ExJsonValue(serde_json::Value);

/// The JSON value that a line of text reads as, where it is JSON.
pub uninterp spec fn json_of_line(line: Seq<char>) -> Option<Json>;

/// Turns a parsed `serde_json::Value` into the library's `Json`, variant for
/// variant: a number keeps the text that `Number`'s `Display` writes, an
/// object its members in the map's order. Nothing is claimed of the result;
/// `parse_json_line` names what the two give together.
#[verifier::external_body]
fn json_from_value(v: serde_json::Value) -> Json {
    match v {
        serde_json::Value::Null => Json::Null,
        serde_json::Value::Bool(b) => Json::Bool(b),
        serde_json::Value::Number(n) => Json::Number(n.to_string()),
        serde_json::Value::String(s) => Json::Str(s),
        serde_json::Value::Array(items) => Json::Array(items.into_iter().map(json_from_value).collect()),
        serde_json::Value::Object(members) => Json::Object(
            members.into_iter().map(|(k, v)| (k, json_from_value(v))).collect(),
        ),
    }
}

/// Reads one line as JSON with `serde_json::from_str::<Value>`: `None` where
/// the line is not JSON. The result depends on the line alone, and is named
/// `json_of_line`; what it holds is not stated here.
#[verifier::external_body]
fn parse_json_line(line: &str) -> (r: Option<Json>)
    ensures
        r == json_of_line(line@),
{
    serde_json::from_str::<serde_json::Value>(line).ok().map(json_from_value)
}

/// The values of `lines` that read as JSON, in order.
pub open spec fn parsed_roots(lines: Seq<Seq<char>>) -> Seq<Json>
    decreases lines.len(),
{
    if lines.len() == 0 {
        Seq::empty()
    } else {
        let rest = parsed_roots(lines.drop_last());
        match json_of_line(lines.last()) {
            Some(v) => rest.push(v),
            None => rest,
        }
    }
}

/// The replay values of a live-chat file: its replay lines that read as
/// JSON, in order.
pub open spec fn live_chat_roots(ndjson: Seq<char>) -> Seq<Json> {
    parsed_roots(chat_lines_spec(ndjson))
}

/// The replay values of a live-chat file, lines that are not JSON skipped.
pub fn replay_roots(ndjson: &str) -> (r: Vec<Json>)
    ensures
        r@ == live_chat_roots(ndjson@),
{
    let lines = chat_lines(ndjson);
    let ghost ls = strings_view(lines@);
    let mut out: Vec<Json> = Vec::new();
    let mut i: usize = 0;
    assert(ls.take(0) =~= Seq::<Seq<char>>::empty());
    while i < lines.len()
        invariant
            0 <= i <= lines@.len(),
            ls == strings_view(lines@),
            ls == chat_lines_spec(ndjson@),
            out@ == parsed_roots(ls.take(i as int)),
        decreases lines@.len() - i,
    {
        assert(ls.take(i + 1).drop_last() =~= ls.take(i as int));
        assert(ls.take(i + 1).last() == lines@[i as int]@);
        match parse_json_line(lines[i].as_str()) {
            Some(v) => {
                out.push(v);
            },
            None => {},
        }
        i = i + 1;
    }
    assert(ls.take(lines@.len() as int) =~= ls);
    out
}

/// Parses a yt-dlp live-chat replay (newline-delimited JSON, one replay
/// action wrapper per line) into a flat message list: the messages of the
/// lines that read as JSON, numbered from 1 in the order they come. Fewer
/// than `u64::MAX` messages fit the numbering.
pub fn parse_live_chat(ndjson: &str) -> (r: Vec<LiveChatMessage>)
    requires
        roots_items(live_chat_roots(ndjson@)).len() < u64::MAX,
    ensures
        messages_view(r@) == messages_of_items(roots_items(live_chat_roots(ndjson@))),
{
    let roots = replay_roots(ndjson);
    messages_of(roots.as_slice())
}

/// `parse_live_chat` where the numbering fits; `None` where the file holds
/// `u64::MAX` messages or more.
pub fn parse_live_chat_checked(ndjson: &str) -> (r: Option<Vec<LiveChatMessage>>)
    ensures
        r is Some <==> roots_items(live_chat_roots(ndjson@)).len() < u64::MAX,
        r matches Some(v) ==> messages_view(v@) == messages_of_items(roots_items(live_chat_roots(ndjson@))),
{
    let roots = replay_roots(ndjson);
    if item_count(roots.as_slice()) == u64::MAX {
        None
    } else {
        Some(parse_live_chat(ndjson))
    }
}

} // verus!
