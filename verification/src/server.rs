//! The plot registry behind the in-process HTTP server, and how it answers
//! each request path.

use vstd::prelude::*;
use crate::text::{
    chars_equal_str, chars_of, chars_start_with, decimal, has_prefix, push_decimal,
    string_from_chars,
};

verus! {

broadcast use vstd::string::group_string_axioms;

/// How long after a poll from the browser tab the tab still counts as alive,
/// in nanoseconds. The page polls `/api/latest` every half second, so a longer
/// silence means the tab was closed (or heavily throttled).
pub const TAB_ALIVE_WINDOW_NANOS: u64 = 5_000_000_000;

/// What `register_spec` hands back. `plot_url` is the stable, per-plot URL
/// `<base>/plot/<id>`; `open_url` is what a browser should be opened on (the
/// server's root page); `should_open` says whether to open one at all: only
/// when no page tab seems alive (none polled recently), since an open tab
/// picks the new plot up through its poll loop.
pub struct Registered {
    pub plot_url: String,
    pub open_url: String,
    pub should_open: bool,
}

/// The registry as a mathematical value.
pub struct PlotRegistry {
    /// `http://<ip>:<port>` of the server.
    pub base_url: Seq<char>,
    /// The registered specs, by plot id.
    pub specs: Map<Seq<char>, Seq<char>>,
    /// The id of the plot registered last.
    pub latest: Option<Seq<char>>,
    /// When the page last polled, in nanoseconds on the server's clock.
    pub last_poll: Option<u64>,
}

/// The state that the HTTP server and `register_spec` share.
pub struct ServerState {
    base_url: String,
    /// The (id, spec) pairs, each id at most once (the type invariant
    /// `ids_distinct`). A `HashMap` keyed by `String` would give no usable contracts:
    /// vstd specifies hash maps only for keys known to obey its key model,
    /// and it states that for integer keys only.
    specs: Vec<(String, String)>,
    latest: Option<String>,
    last_poll: Option<u64>,
}

/// The (id, spec) pairs as character sequences.
pub open spec fn entry_views(entries: Seq<(String, String)>) -> Seq<(Seq<char>, Seq<char>)> {
    entries.map_values(|e: (String, String)| (e.0@, e.1@))
}

/// The value stored under `key`: that of the last entry with this key.
pub open spec fn lookup(entries: Seq<(Seq<char>, Seq<char>)>, key: Seq<char>) -> Option<Seq<char>>
    decreases entries.len(),
{
    if entries.len() == 0 {
        None
    } else if entries.last().0 == key {
        Some(entries.last().1)
    } else {
        lookup(entries.drop_last(), key)
    }
}

/// The entries as a map from key to value.
pub open spec fn entries_map(entries: Seq<(Seq<char>, Seq<char>)>) -> Map<Seq<char>, Seq<char>> {
    Map::new(|k: Seq<char>| lookup(entries, k) is Some, |k: Seq<char>| lookup(entries, k)->0)
}

proof fn lemma_lookup_last_match(e: Seq<(Seq<char>, Seq<char>)>, k: Seq<char>, i: int)
    requires
        0 <= i < e.len(),
        e[i].0 == k,
        forall|j: int| i < j < e.len() ==> #[trigger] e[j].0 != k,
    ensures
        lookup(e, k) == Some(e[i].1),
    decreases e.len(),
{
    if i < e.len() - 1 {
        lemma_lookup_last_match(e.drop_last(), k, i);
    }
}

proof fn lemma_lookup_absent(e: Seq<(Seq<char>, Seq<char>)>, k: Seq<char>)
    requires
        forall|j: int| 0 <= j < e.len() ==> #[trigger] e[j].0 != k,
    ensures
        lookup(e, k) is None,
    decreases e.len(),
{
    if e.len() > 0 {
        lemma_lookup_absent(e.drop_last(), k);
    }
}

proof fn lemma_lookup_update_other(
    e: Seq<(Seq<char>, Seq<char>)>,
    i: int,
    k: Seq<char>,
    v: Seq<char>,
    other: Seq<char>,
)
    requires
        0 <= i < e.len(),
        e[i].0 == k,
        other != k,
    ensures
        lookup(e.update(i, (k, v)), other) == lookup(e, other),
    decreases e.len(),
{
    let u = e.update(i, (k, v));
    if i < e.len() - 1 {
        assert(u.drop_last() =~= e.drop_last().update(i, (k, v)));
        lemma_lookup_update_other(e.drop_last(), i, k, v, other);
    } else {
        assert(u.drop_last() =~= e.drop_last());
    }
}

/// Whether a browser should be opened because no page tab seems alive: no
/// poll was ever seen, or the last one is older than the alive window.
pub open spec fn should_open_browser(last_poll: Option<u64>, now: u64) -> bool {
    match last_poll {
        None => true,
        Some(t) => now - t > TAB_ALIVE_WINDOW_NANOS,
    }
}

/// Whether `id` is a UUID in its hyphenated lower-case form, as
/// `8-4-4-4-12` hexadecimal digits.
pub open spec fn is_hyphenated_uuid(id: Seq<char>) -> bool {
    &&& id.len() == 36
    &&& forall|i: int|
        0 <= i < 36 ==> if i == 8 || i == 13 || i == 18 || i == 23 {
            #[trigger] id[i] == '-'
        } else {
            ('0' <= id[i] <= '9') || ('a' <= id[i] <= 'f')
        }
}

/// The lower-case hexadecimal digit for `n` (`0 <= n < 16`).
pub open spec fn hex_digit(n: int) -> char {
    if n < 10 {
        (n + 48) as char
    } else {
        (n + 87) as char
    }
}

/// The bytes of a random (version 4, RFC 4122 variant) UUID made from 16
/// random bytes: the high nibble of byte 6 becomes 4, the two high bits of
/// byte 8 become `10`.
pub open spec fn v4_bytes(b: Seq<u8>) -> Seq<int> {
    Seq::new(
        16,
        |i: int|
            if i == 6 {
                (b[6] % 16) + 64
            } else if i == 8 {
                (b[8] % 64) + 128
            } else {
                b[i] as int
            },
    )
}

/// The hyphenated lower-case text of 16 bytes: two hex digits per byte, high
/// nibble first, with `-` after bytes 4, 6, 8 and 10.
pub open spec fn hyphenated_hex(bytes: Seq<int>) -> Seq<char> {
    Seq::new(
        36,
        |i: int|
            if i == 8 || i == 13 || i == 18 || i == 23 {
                '-'
            } else {
                let k = if i < 8 {
                    i
                } else if i < 13 {
                    i - 1
                } else if i < 18 {
                    i - 2
                } else if i < 23 {
                    i - 3
                } else {
                    i - 4
                };
                hex_digit(
                    if k % 2 == 0 {
                        bytes[k / 2] / 16
                    } else {
                        bytes[k / 2] % 16
                    },
                )
            },
    )
}

/// Whether `id` is the text of a random (version 4) UUID: that of some 16
/// random bytes.
pub open spec fn is_random_uuid_text(id: Seq<char>) -> bool {
    exists|b: Seq<u8>| b.len() == 16 && id == #[trigger] hyphenated_hex(v4_bytes(b))
}

/// The text of a random UUID is in hyphenated lower-case form.
proof fn lemma_random_uuid_text(b: Seq<u8>)
    requires
        b.len() == 16,
    ensures
        is_hyphenated_uuid(hyphenated_hex(v4_bytes(b))),
{
    let bytes = v4_bytes(b);
    let t = hyphenated_hex(bytes);
    assert forall|j: int| 0 <= j < 16 implies 0 <= #[trigger] bytes[j] < 256 by {}
    assert forall|i: int| 0 <= i < 36 && !(i == 8 || i == 13 || i == 18 || i == 23) implies ('0'
        <= #[trigger] t[i] <= '9') || ('a' <= t[i] <= 'f') by {
        let k = if i < 8 {
            i
        } else if i < 13 {
            i - 1
        } else if i < 18 {
            i - 2
        } else if i < 23 {
            i - 3
        } else {
            i - 4
        };
        assert(0 <= k < 32);
        let byte = bytes[k / 2];
        assert(0 <= byte < 256);
        let n = if k % 2 == 0 {
            byte / 16
        } else {
            byte % 16
        };
        assert(0 <= n < 16);
    }
}

/// Sixteen bytes from the operating system's random source, through
/// `getrandom::fill`; `None` when that call reports an error. The bytes are
/// random, so nothing is said of them.
#[verifier::external_body]
fn random_bytes() -> (res: Option<[u8; 16]>) {
    let mut bytes = [0u8; 16];
    match getrandom::fill(&mut bytes) {
        Ok(()) => Some(bytes),
        Err(_) => None,
    }
}

/// The UUID that `uuid::Builder::from_random_bytes` makes of `bytes`, in its
/// `Display` form. The builder sets the version and variant bits as
/// `v4_bytes` says, and `Display` writes the hyphenated lower-case hex form;
/// the contract states exactly that.
#[verifier::external_body]
fn uuid_text(bytes: [u8; 16]) -> (res: String)
    ensures
        res@ == hyphenated_hex(v4_bytes(bytes@)),
{
    uuid::Builder::from_random_bytes(bytes).into_uuid().to_string()
}

impl View for ServerState {
    type V = PlotRegistry;

    closed spec fn view(&self) -> PlotRegistry {
        PlotRegistry {
            base_url: self.base_url@,
            specs: entries_map(entry_views(self.specs@)),
            latest: match self.latest {
                Some(id) => Some(id@),
                None => None,
            },
            last_poll: self.last_poll,
        }
    }
}

/// The body of `/api/latest`.
pub open spec fn latest_body(latest: Option<Seq<char>>) -> Seq<char> {
    match latest {
        Some(id) => "{\"uuid\":\""@ + id + "\"}"@,
        None => "{\"uuid\":null}"@,
    }
}

impl ServerState {
    /// The state of a freshly started server reachable at `base_url`.
    pub fn new(base_url: String) -> (res: ServerState)
        ensures
            res@.base_url == base_url@,
            res@.specs == Map::<Seq<char>, Seq<char>>::empty(),
            res@.latest is None,
            res@.last_poll is None,
    {
        let res = ServerState { base_url, specs: Vec::new(), latest: None, last_poll: None };
        assert(res@.specs =~= Map::<Seq<char>, Seq<char>>::empty());
        res
    }

    /// The state of a freshly started server listening on `ip`:`port`, whose
    /// base URL is `http://<ip>:<port>`.
    pub fn for_address(ip: &str, port: u16) -> (res: ServerState)
        ensures
            res@.base_url == "http://"@ + ip@ + ":"@ + decimal(port as nat),
            res@.specs == Map::<Seq<char>, Seq<char>>::empty(),
            res@.latest is None,
            res@.last_poll is None,
    {
        let mut base_url = String::from_str("http://");
        base_url.append(ip);
        base_url.append(":");
        push_decimal(&mut base_url, port as u64);
        ServerState::new(base_url)
    }

    /// Each plot id is stored at most once.
    #[verifier::type_invariant]
    closed spec fn ids_distinct(self) -> bool {
        forall|i: int, j: int|
            0 <= i < j < self.specs@.len() ==> #[trigger] self.specs@[i].0@ != #[trigger] self.specs@[j].0@
    }

    /// The index of the last entry stored under `id`, if any.
    fn find_last(&self, id: &String) -> (res: Option<usize>)
        ensures
            match res {
                Some(i) => {
                    &&& i < self.specs@.len()
                    &&& self.specs@[i as int].0@ == id@
                    &&& forall|j: int|
                        i < j < self.specs@.len() ==> #[trigger] self.specs@[j].0@ != id@
                },
                None => forall|j: int|
                    0 <= j < self.specs@.len() ==> #[trigger] self.specs@[j].0@ != id@,
            },
    {
        let mut i = self.specs.len();
        while i > 0
            invariant
                i <= self.specs@.len(),
                forall|j: int| i <= j < self.specs@.len() ==> #[trigger] self.specs@[j].0@ != id@,
            decreases i,
        {
            if self.specs[i - 1].0 == *id {
                return Some(i - 1);
            }
            i = i - 1;
        }
        None
    }

    /// The spec stored under `id`.
    pub fn spec_for(&self, id: &String) -> (res: Option<String>)
        ensures
            match res {
                Some(s) => self@.specs.contains_key(id@) && self@.specs[id@] == s@,
                None => !self@.specs.contains_key(id@),
            },
    {
        let ghost e = entry_views(self.specs@);
        match self.find_last(id) {
            Some(i) => {
                proof {
                    assert forall|j: int| i < j < e.len() implies #[trigger] e[j].0 != id@ by {
                        assert(e[j].0 == self.specs@[j].0@);
                    }
                    lemma_lookup_last_match(e, id@, i as int);
                }
                Some(self.specs[i].1.clone())
            },
            None => {
                proof {
                    assert forall|j: int| 0 <= j < e.len() implies #[trigger] e[j].0 != id@ by {
                        assert(e[j].0 == self.specs@[j].0@);
                    }
                    lemma_lookup_absent(e, id@);
                }
                None
            },
        }
    }

    /// Registers a spec under the given id: stores it (replacing any spec of
    /// that id), makes it the latest plot, and says where it can be seen.
    pub fn register_spec_with_id(&mut self, id: String, spec_json: String, now: u64) -> (res:
        Registered)
        ensures
            final(self)@.specs == old(self)@.specs.insert(id@, spec_json@),
            final(self)@.latest == Some(id@),
            final(self)@.last_poll == old(self)@.last_poll,
            final(self)@.base_url == old(self)@.base_url,
            res.plot_url@ == old(self)@.base_url + "/plot/"@ + id@,
            res.open_url@ == old(self)@.base_url + "/"@,
            res.should_open == should_open_browser(old(self)@.last_poll, now),
    {
        proof {
            use_type_invariant(&*self);
        }
        let ghost old_e = entry_views(self.specs@);
        let ghost old_specs = self.specs@;
        let mut plot_url = self.base_url.clone();
        plot_url.append("/plot/");
        plot_url.append(id.as_str());
        let mut open_url = self.base_url.clone();
        open_url.append("/");
        let found = self.find_last(&id);
        let mut specs: Vec<(String, String)> = Vec::new();
        std::mem::swap(&mut specs, &mut self.specs);
        match found {
            Some(i) => {
                specs.set(i, (id.clone(), spec_json));
                proof {
                    let new_e = entry_views(specs@);
                    assert(new_e =~= old_e.update(i as int, (id@, spec_json@)));
                    assert forall|j: int| i < j < new_e.len() implies #[trigger] new_e[j].0 != id@ by {
                        assert(new_e[j].0 == specs@[j].0@);
                    }
                    lemma_lookup_last_match(new_e, id@, i as int);
                    assert forall|a: int, b: int| 0 <= a < b < specs@.len() implies #[trigger] specs@[a].0@
                        != #[trigger] specs@[b].0@ by {
                        assert(old_specs[a].0@ != old_specs[b].0@);
                        assert(old_specs[i as int].0@ == id@);
                    }
                    assert forall|k: Seq<char>| k != id@ implies lookup(new_e, k) == lookup(old_e, k) by {
                        assert(old_e[i as int].0 == id@);
                        lemma_lookup_update_other(old_e, i as int, id@, spec_json@, k);
                    }
                    assert(entries_map(new_e) =~= entries_map(old_e).insert(id@, spec_json@));
                }
            },
            None => {
                specs.push((id.clone(), spec_json));
                proof {
                    let new_e = entry_views(specs@);
                    assert(new_e =~= old_e.push((id@, spec_json@)));
                    assert(new_e.drop_last() =~= old_e);
                    assert(entries_map(new_e) =~= entries_map(old_e).insert(id@, spec_json@));
                    assert forall|a: int, b: int| 0 <= a < b < specs@.len() implies #[trigger] specs@[a].0@
                        != #[trigger] specs@[b].0@ by {
                        if b < old_specs.len() {
                            assert(old_specs[a].0@ != old_specs[b].0@);
                        } else {
                            assert(old_specs[a].0@ != id@);
                        }
                    }
                }
            },
        }
        self.specs = specs;
        self.latest = Some(id);
        let should_open = match self.last_poll {
            None => true,
            Some(t) => now >= t && now - t > TAB_ALIVE_WINDOW_NANOS,
        };
        Registered { plot_url, open_url, should_open }
    }

    /// Registers a spec under the id made of one draw of random bytes: the
    /// random UUID (version 4) of `bytes`, in hyphenated lower-case form. A
    /// failed draw (`None`) registers nothing.
    pub fn register_spec_with_bytes(
        &mut self,
        bytes: Option<[u8; 16]>,
        spec_json: String,
        now: u64,
    ) -> (res: Option<Registered>)
        ensures
            match bytes {
                None => res is None && final(self)@ == old(self)@,
                Some(b) => {
                    let id = hyphenated_hex(v4_bytes(b@));
                    &&& res is Some
                    &&& final(self)@.specs == old(self)@.specs.insert(id, spec_json@)
                    &&& final(self)@.latest == Some(id)
                    &&& final(self)@.last_poll == old(self)@.last_poll
                    &&& final(self)@.base_url == old(self)@.base_url
                    &&& res->0.plot_url@ == old(self)@.base_url + "/plot/"@ + id
                    &&& res->0.open_url@ == old(self)@.base_url + "/"@
                    &&& res->0.should_open == should_open_browser(old(self)@.last_poll, now)
                },
            },
    {
        match bytes {
            Some(b) => {
                let id = uuid_text(b);
                Some(self.register_spec_with_id(id, spec_json, now))
            },
            None => None,
        }
    }

    /// Registers a spec under a fresh random id (see
    /// `register_spec_with_bytes`): draws 16 random bytes and makes the id of
    /// them. When the random source fails, nothing is registered and `None`
    /// comes back.
    pub fn register_spec(&mut self, spec_json: String, now: u64) -> (res: Option<Registered>)
        ensures
            match res {
                None => final(self)@ == old(self)@,
                Some(r) => {
                    &&& exists|id: Seq<char>|
                        {
                            &&& is_hyphenated_uuid(id)
                            &&& is_random_uuid_text(id)
                            &&& #[trigger] final(self)@.specs == old(self)@.specs.insert(id, spec_json@)
                            &&& final(self)@.latest == Some(id)
                            &&& r.plot_url@ == old(self)@.base_url + "/plot/"@ + id
                        }
                    &&& final(self)@.last_poll == old(self)@.last_poll
                    &&& final(self)@.base_url == old(self)@.base_url
                    &&& r.open_url@ == old(self)@.base_url + "/"@
                    &&& r.should_open == should_open_browser(old(self)@.last_poll, now)
                },
            },
    {
        let drawn = random_bytes();
        let res = self.register_spec_with_bytes(drawn, spec_json, now);
        proof {
            if let Some(b) = drawn {
                let idv = hyphenated_hex(v4_bytes(b@));
                lemma_random_uuid_text(b@);
                assert(is_random_uuid_text(idv));
                assert(final(self)@.specs == old(self)@.specs.insert(idv, spec_json@));
            }
        }
        res
    }

    /// Records that the page polled at time `now`.
    pub fn mark_poll(&mut self, now: u64)
        ensures
            final(self)@.last_poll == Some(now),
            final(self)@.specs == old(self)@.specs,
            final(self)@.latest == old(self)@.latest,
            final(self)@.base_url == old(self)@.base_url,
    {
        proof {
            use_type_invariant(&*self);
        }
        self.last_poll = Some(now);
    }

    /// The body that `/api/latest` answers with.
    pub fn latest_json(&self) -> (res: String)
        ensures
            res@ == latest_body(self@.latest),
    {
        match &self.latest {
            Some(id) => {
                let mut body = String::from_str("{\"uuid\":\"");
                body.append(id.as_str());
                body.append("\"}");
                body
            },
            None => String::from_str("{\"uuid\":null}"),
        }
    }
}

/// One of the vendored script bundles that the server serves.
#[derive(Clone, Copy, PartialEq, Eq, Structural, Debug)]
pub enum Asset {
    Vega,
    VegaLite,
    VegaEmbed,
}

/// How the server answers a request.
pub enum Reply {
    /// A vendored script bundle.
    Asset(Asset),
    /// A JSON document.
    Json(String),
    /// The single-page app shell.
    AppShell,
    /// `404 not found`.
    NotFound,
}

/// A reply as a mathematical value.
pub enum ReplyView {
    Asset(Asset),
    Json(Seq<char>),
    AppShell,
    NotFound,
}

impl View for Reply {
    type V = ReplyView;

    open spec fn view(&self) -> ReplyView {
        match self {
            Reply::Asset(a) => ReplyView::Asset(*a),
            Reply::Json(body) => ReplyView::Json(body@),
            Reply::AppShell => ReplyView::AppShell,
            Reply::NotFound => ReplyView::NotFound,
        }
    }
}

/// The body of a `404` reply.
pub const NOT_FOUND_BODY: &'static str = "not found";

/// The path of a request URL: everything before the first `?`.
pub open spec fn path_part(url: Seq<char>) -> Seq<char>
    decreases url.len(),
{
    if url.len() == 0 {
        url
    } else if url[0] == '?' {
        seq![]
    } else {
        seq![url[0]] + path_part(url.skip(1))
    }
}

/// `s` without the `/` characters at its end.
pub open spec fn trim_trailing_slashes(s: Seq<char>) -> Seq<char>
    decreases s.len(),
{
    if s.len() > 0 && s.last() == '/' {
        trim_trailing_slashes(s.drop_last())
    } else {
        s
    }
}

/// The plot id named by a path below `/api/spec/`.
pub open spec fn spec_path_id(path: Seq<char>) -> Seq<char> {
    trim_trailing_slashes(path.skip("/api/spec/"@.len() as int))
}

/// How a request for `url` is answered in the registry `st`.
pub open spec fn routed(st: PlotRegistry, url: Seq<char>) -> ReplyView {
    let p = path_part(url);
    if p == "/assets/vega.min.js"@ {
        ReplyView::Asset(Asset::Vega)
    } else if p == "/assets/vega-lite.min.js"@ {
        ReplyView::Asset(Asset::VegaLite)
    } else if p == "/assets/vega-embed.min.js"@ {
        ReplyView::Asset(Asset::VegaEmbed)
    } else if p == "/api/latest"@ {
        ReplyView::Json(latest_body(st.latest))
    } else if has_prefix(p, "/api/spec/"@) {
        let id = spec_path_id(p);
        if st.specs.contains_key(id) {
            ReplyView::Json(st.specs[id])
        } else {
            ReplyView::NotFound
        }
    } else if p == "/"@ || has_prefix(p, "/plot/"@) {
        ReplyView::AppShell
    } else {
        ReplyView::NotFound
    }
}

/// The registry after answering a request for `url` at time `now`: a request
/// for `/api/latest` counts as a poll from the page.
pub open spec fn after_request(st: PlotRegistry, url: Seq<char>, now: u64) -> PlotRegistry {
    if path_part(url) == "/api/latest"@ {
        PlotRegistry {
            base_url: st.base_url,
            specs: st.specs,
            latest: st.latest,
            last_poll: Some(now),
        }
    } else {
        st
    }
}

/// The path of `url`, as characters.
pub fn path_of(url: &str) -> (res: Vec<char>)
    ensures
        res@ == path_part(url@),
{
    let cs = chars_of(url);
    let mut res: Vec<char> = Vec::new();
    let mut i: usize = 0;
    assert(cs@.skip(0) =~= cs@);
    while i < cs.len()
        invariant
            cs@ == url@,
            0 <= i <= cs@.len(),
            path_part(url@) == res@ + path_part(cs@.skip(i as int)),
        decreases cs@.len() - i,
    {
        let ghost t = cs@.skip(i as int);
        if cs[i] == '?' {
            assert(t[0] == '?');
            assert(res@ + seq![] =~= res@);
            return res;
        }
        proof {
            assert(t[0] == cs@[i as int]);
            assert(t.skip(1) =~= cs@.skip(i + 1));
        }
        res.push(cs[i]);
        i = i + 1;
        assert(path_part(url@) == res@ + path_part(cs@.skip(i as int)));
    }
    assert(cs@.skip(i as int) =~= Seq::<char>::empty());
    assert(res@ + seq![] =~= res@);
    res
}

/// The end of `p[from..]` once the `/` characters at its end are dropped.
fn trimmed_end(p: &Vec<char>, from: usize) -> (res: usize)
    requires
        from <= p@.len(),
    ensures
        from <= res <= p@.len(),
        p@.subrange(from as int, res as int) == trim_trailing_slashes(p@.skip(from as int)),
{
    let mut j = p.len();
    assert(p@.subrange(from as int, j as int) =~= p@.skip(from as int));
    while j > from && p[j - 1] == '/'
        invariant
            from <= j <= p@.len(),
            trim_trailing_slashes(p@.subrange(from as int, j as int)) == trim_trailing_slashes(
                p@.skip(from as int),
            ),
        decreases j,
    {
        assert(p@.subrange(from as int, j as int).drop_last() =~= p@.subrange(
            from as int,
            j - 1,
        ));
        j = j - 1;
    }
    j
}

impl ServerState {
    /// Answers a request for `url` at time `now`. Static bundles and the app
    /// shell are fixed; `/api/latest` names the latest plot and counts as a
    /// poll from the page; `/api/spec/<id>` gives the spec registered under
    /// `<id>`; everything else is not found.
    pub fn route(&mut self, url: &str, now: u64) -> (res: Reply)
        ensures
            res@ == routed(old(self)@, url@),
            final(self)@ == after_request(old(self)@, url@, now),
    {
        let p = path_of(url);
        proof {
            reveal_strlit("/api/latest");
            reveal_strlit("/assets/vega.min.js");
            reveal_strlit("/assets/vega-lite.min.js");
            reveal_strlit("/assets/vega-embed.min.js");
            assert("/api/latest"@.len() == 11);
            assert("/assets/vega.min.js"@.len() == 19);
            assert("/assets/vega-lite.min.js"@.len() == 24);
            assert("/assets/vega-embed.min.js"@.len() == 25);
        }
        if chars_equal_str(p.as_slice(), "/assets/vega.min.js") {
            return Reply::Asset(Asset::Vega);
        }
        if chars_equal_str(p.as_slice(), "/assets/vega-lite.min.js") {
            return Reply::Asset(Asset::VegaLite);
        }
        if chars_equal_str(p.as_slice(), "/assets/vega-embed.min.js") {
            return Reply::Asset(Asset::VegaEmbed);
        }
        if chars_equal_str(p.as_slice(), "/api/latest") {
            self.mark_poll(now);
            return Reply::Json(self.latest_json());
        }
        if chars_start_with(p.as_slice(), "/api/spec/") {
            let prefix = chars_of("/api/spec/");
            let end = trimmed_end(&p, prefix.len());
            let id = string_from_chars(p.as_slice(), prefix.len(), end);
            assert(p@.subrange(prefix@.len() as int, end as int) == spec_path_id(path_part(url@)));
            return match self.spec_for(&id) {
                Some(body) => Reply::Json(body),
                None => Reply::NotFound,
            };
        }
        if chars_equal_str(p.as_slice(), "/") || chars_start_with(p.as_slice(), "/plot/") {
            return Reply::AppShell;
        }
        Reply::NotFound
    }
}

/// The headers (name, value) that a reply carries.
pub open spec fn reply_headers(r: ReplyView) -> Seq<(Seq<char>, Seq<char>)> {
    match r {
        ReplyView::Asset(_) => seq![
            ("Content-Type"@, "application/javascript; charset=utf-8"@),
            ("Cache-Control"@, "public, max-age=31536000, immutable"@),
        ],
        ReplyView::Json(_) => seq![
            ("Content-Type"@, "application/json; charset=utf-8"@),
            ("Cache-Control"@, "no-store"@),
        ],
        ReplyView::AppShell => seq![("Content-Type"@, "text/html; charset=utf-8"@)],
        ReplyView::NotFound => seq![],
    }
}

/// The header pairs as character sequences.
pub open spec fn header_views(hs: Seq<(String, String)>) -> Seq<(Seq<char>, Seq<char>)> {
    hs.map_values(|h: (String, String)| (h.0@, h.1@))
}

fn header(name: &str, value: &str) -> (res: (String, String))
    ensures
        res.0@ == name@,
        res.1@ == value@,
{
    (String::from_str(name), String::from_str(value))
}

impl Reply {
    /// The HTTP status code: 404 for `NotFound`, 200 otherwise.
    pub fn status(&self) -> (res: u16)
        ensures
            res == (if self@ is NotFound { 404u16 } else { 200u16 }),
    {
        match self {
            Reply::NotFound => 404,
            _ => 200,
        }
    }

    /// The headers set on the reply. The bundles never change while the
    /// server runs, so they may be cached for a year; JSON is never cached.
    pub fn headers(&self) -> (res: Vec<(String, String)>)
        ensures
            header_views(res@) == reply_headers(self@),
    {
        let mut hs: Vec<(String, String)> = Vec::new();
        match self {
            Reply::Asset(_) => {
                hs.push(header("Content-Type", "application/javascript; charset=utf-8"));
                hs.push(header("Cache-Control", "public, max-age=31536000, immutable"));
            },
            Reply::Json(_) => {
                hs.push(header("Content-Type", "application/json; charset=utf-8"));
                hs.push(header("Cache-Control", "no-store"));
            },
            Reply::AppShell => {
                hs.push(header("Content-Type", "text/html; charset=utf-8"));
            },
            Reply::NotFound => {},
        }
        assert(header_views(hs@) =~= reply_headers(self@));
        hs
    }
}

proof fn lemma_path_part_plain(s: Seq<char>)
    requires
        forall|i: int| 0 <= i < s.len() ==> #[trigger] s[i] != '?',
    ensures
        path_part(s) == s,
    decreases s.len(),
{
    if s.len() > 0 {
        lemma_path_part_plain(s.skip(1));
        assert(seq![s[0]] + s.skip(1) =~= s);
    }
}

proof fn lemma_path_part_query(a: Seq<char>, q: Seq<char>)
    requires
        forall|i: int| 0 <= i < a.len() ==> #[trigger] a[i] != '?',
    ensures
        path_part(a + seq!['?'] + q) == a,
    decreases a.len(),
{
    let s = a + seq!['?'] + q;
    if a.len() == 0 {
        assert(s[0] == '?');
    } else {
        assert(s[0] == a[0]);
        assert(s.skip(1) =~= a.skip(1) + seq!['?'] + q);
        lemma_path_part_query(a.skip(1), q);
        assert(seq![a[0]] + a.skip(1) =~= a);
    }
}

proof fn lemma_spec_path(id: Seq<char>)
    requires
        is_hyphenated_uuid(id),
    ensures
        forall|i: int| 0 <= i < ("/api/spec/"@ + id).len() ==> #[trigger] ("/api/spec/"@ + id)[i] != '?',
        has_prefix("/api/spec/"@ + id, "/api/spec/"@),
        spec_path_id("/api/spec/"@ + id) == id,
        "/api/spec/"@ + id != "/assets/vega.min.js"@,
        "/api/spec/"@ + id != "/assets/vega-lite.min.js"@,
        "/api/spec/"@ + id != "/assets/vega-embed.min.js"@,
        "/api/spec/"@ + id != "/api/latest"@,
{
    reveal_strlit("/api/spec/");
    reveal_strlit("/api/latest");
    reveal_strlit("/assets/vega.min.js");
    reveal_strlit("/assets/vega-lite.min.js");
    reveal_strlit("/assets/vega-embed.min.js");
    let p = "/api/spec/"@ + id;
    let pre = "/api/spec/"@;
    assert(pre.len() == 10);
    assert forall|i: int| 0 <= i < p.len() implies #[trigger] p[i] != '?' by {
        if i < 10 {
            assert(p[i] == pre[i]);
        } else {
            assert(p[i] == id[i - 10]);
            assert(id[i - 10] == id[i - 10]);
        }
    }
    assert(p.take(10) =~= pre);
    assert(p.skip(10) =~= id);
    assert(id[35] == id[35]);
    assert(id.last() != '/');
}

/// Read after write: once a spec is registered under an id (a fresh plot id),
/// a request for `/api/spec/<id>` is answered with that spec, also when the
/// URL carries a query string, and `/api/latest` names that id. The plot URL
/// `<base>/plot/<id>` is answered with the app shell, which fetches exactly this.
pub proof fn law_registered_spec_is_served(
    before: PlotRegistry,
    after: PlotRegistry,
    id: Seq<char>,
    spec_json: Seq<char>,
    query: Seq<char>,
)
    requires
        is_hyphenated_uuid(id),
        after.specs == before.specs.insert(id, spec_json),
        after.latest == Some(id),
    ensures
        routed(after, "/api/spec/"@ + id) == ReplyView::Json(spec_json),
        routed(after, "/api/spec/"@ + id + seq!['?'] + query) == ReplyView::Json(spec_json),
        routed(after, "/api/latest"@) == ReplyView::Json("{\"uuid\":\""@ + id + "\"}"@),
        routed(after, "/"@) == ReplyView::AppShell,
        routed(after, "/plot/"@ + id) == ReplyView::AppShell,
{
    reveal_strlit("/api/latest");
    reveal_strlit("/assets/vega.min.js");
    reveal_strlit("/assets/vega-lite.min.js");
    reveal_strlit("/assets/vega-embed.min.js");
    reveal_strlit("/");
    reveal_strlit("/api/spec/");
    lemma_spec_path(id);
    let p = "/api/spec/"@ + id;
    lemma_path_part_plain(p);
    lemma_path_part_query(p, query);
    lemma_path_part_plain("/api/latest"@);
    lemma_path_part_plain("/"@);
    assert(!has_prefix("/"@, "/api/spec/"@));
    reveal_strlit("/plot/");
    let pp = "/plot/"@ + id;
    assert forall|i: int| 0 <= i < pp.len() implies #[trigger] pp[i] != '?' by {
        if i >= 6 {
            assert(pp[i] == id[i - 6]);
            assert(id[i - 6] == id[i - 6]);
        }
    }
    lemma_path_part_plain(pp);
    assert(pp.take(6) =~= "/plot/"@);
    assert(pp[1] == 'p');
    assert(!has_prefix(pp, "/api/spec/"@)) by {
        assert(pp.take(10)[1] == 'p');
    }
}

/// Registering a spec leaves every other registered plot as it was.
pub proof fn law_registration_keeps_other_plots(
    before: PlotRegistry,
    after: PlotRegistry,
    id: Seq<char>,
    spec_json: Seq<char>,
    other: Seq<char>,
)
    requires
        is_hyphenated_uuid(other),
        other != id,
        after.specs == before.specs.insert(id, spec_json),
    ensures
        routed(after, "/api/spec/"@ + other) == routed(before, "/api/spec/"@ + other),
{
    lemma_spec_path(other);
    lemma_path_part_plain("/api/spec/"@ + other);
}

/// A page poll keeps the browser shut: after `/api/latest` was requested at
/// time `t`, a plot registered within the alive window reports `should_open`
/// as false, so no second window is opened; without any poll, or after the
/// window, it reports true.
pub proof fn law_poll_marks_tab_alive(st: PlotRegistry, t: u64, now: u64)
    ensures
        after_request(st, "/api/latest"@, t).last_poll == Some(t),
        t <= now <= t + TAB_ALIVE_WINDOW_NANOS ==> !should_open_browser(
            after_request(st, "/api/latest"@, t).last_poll,
            now,
        ),
        now > t + TAB_ALIVE_WINDOW_NANOS ==> should_open_browser(
            after_request(st, "/api/latest"@, t).last_poll,
            now,
        ),
        should_open_browser(None, now),
{
    reveal_strlit("/api/latest");
    lemma_path_part_plain("/api/latest"@);
}

/// Every request whose path is `/api/latest` is a poll, whatever query
/// string follows the `?`: it records the request time as the last poll, is
/// answered with the latest plot, and changes nothing else. A plot registered
/// within the alive window after it then reports `should_open` as false.
pub proof fn law_latest_poll_with_query_marks_tab_alive(
    st: PlotRegistry,
    q: Seq<char>,
    t: u64,
    now: u64,
)
    ensures
        ({
            let url = "/api/latest"@ + seq!['?'] + q;
            let after = after_request(st, url, t);
            &&& after.last_poll == Some(t)
            &&& after.specs == st.specs
            &&& after.latest == st.latest
            &&& after.base_url == st.base_url
            &&& routed(st, url) == ReplyView::Json(latest_body(st.latest))
            &&& (t <= now <= t + TAB_ALIVE_WINDOW_NANOS ==> !should_open_browser(after.last_poll, now))
        }),
{
    reveal_strlit("/api/latest");
    reveal_strlit("/assets/vega.min.js");
    reveal_strlit("/assets/vega-lite.min.js");
    reveal_strlit("/assets/vega-embed.min.js");
    let a = "/api/latest"@;
    assert forall|i: int| 0 <= i < a.len() implies #[trigger] a[i] != '?' by {}
    lemma_path_part_query(a, q);
    assert(a.len() == 11);
    assert("/assets/vega.min.js"@.len() == 19);
    assert("/assets/vega-lite.min.js"@.len() == 24);
    assert("/assets/vega-embed.min.js"@.len() == 25);
}

/// Two registrations in a row: both plots are served by the same server
/// (the same root URL, of which each plot URL is an extension), the first
/// spec is still stored under its id and the second under its own, and the
/// latest plot is the second. It is stated for distinct ids; that two draws
/// whose UUIDs differ give distinct ids is
/// `law_distinct_draws_give_distinct_ids`.
pub proof fn law_two_registrations(
    st: PlotRegistry,
    id1: Seq<char>,
    a: Seq<char>,
    id2: Seq<char>,
    b: Seq<char>,
)
    requires
        id1 != id2,
    ensures
        ({
            let st1 = PlotRegistry {
                base_url: st.base_url,
                specs: st.specs.insert(id1, a),
                latest: Some(id1),
                last_poll: st.last_poll,
            };
            let st2 = PlotRegistry {
                base_url: st1.base_url,
                specs: st1.specs.insert(id2, b),
                latest: Some(id2),
                last_poll: st1.last_poll,
            };
            &&& st2.base_url + "/"@ == st1.base_url + "/"@
            &&& has_prefix(st2.base_url + "/plot/"@ + id2, st2.base_url + "/"@)
            &&& has_prefix(st1.base_url + "/plot/"@ + id1, st1.base_url + "/"@)
            &&& st2.specs.contains_key(id1) && st2.specs[id1] == a
            &&& st2.specs.contains_key(id2) && st2.specs[id2] == b
            &&& st2.latest == Some(id2)
        }),
{
    reveal_strlit("/plot/");
    reveal_strlit("/");
    let base = st.base_url;
    let root = base + "/"@;
    assert((base + "/plot/"@ + id2).take(root.len() as int) =~= root);
    assert((base + "/plot/"@ + id1).take(root.len() as int) =~= root);
}


/// Two hex digits of nibbles are equal only when the nibbles are.
proof fn lemma_hex_digit_injective(m: int, n: int)
    requires
        0 <= m < 16,
        0 <= n < 16,
        m != n,
    ensures
        hex_digit(m) != hex_digit(n),
{
    assert(hex_digit(m) as int == if m < 10 { m + 48 } else { m + 87 });
    assert(hex_digit(n) as int == if n < 10 { n + 48 } else { n + 87 });
}

/// Two draws whose UUIDs differ (they differ outside the version and variant
/// bits) give two different ids: the hyphenated text determines the bytes.
pub proof fn law_distinct_draws_give_distinct_ids(b1: Seq<u8>, b2: Seq<u8>)
    requires
        b1.len() == 16,
        b2.len() == 16,
        v4_bytes(b1) != v4_bytes(b2),
    ensures
        hyphenated_hex(v4_bytes(b1)) != hyphenated_hex(v4_bytes(b2)),
{
    let x = v4_bytes(b1);
    let y = v4_bytes(b2);
    if forall|j: int| 0 <= j < 16 ==> #[trigger] x[j] == y[j] {
        assert(x =~= y);
    }
    let j = choose|j: int| 0 <= j < 16 && #[trigger] x[j] != y[j];
    assert(0 <= x[j] < 256 && 0 <= y[j] < 256);
    let k = if x[j] / 16 != y[j] / 16 { 2 * j } else { 2 * j + 1 };
    let i = if k < 8 {
        k
    } else if k < 12 {
        k + 1
    } else if k < 16 {
        k + 2
    } else if k < 20 {
        k + 3
    } else {
        k + 4
    };
    let t1 = hyphenated_hex(x);
    let t2 = hyphenated_hex(y);
    if x[j] / 16 != y[j] / 16 {
        lemma_hex_digit_injective(x[j] / 16, y[j] / 16);
        assert(t1[i] == hex_digit(x[j] / 16));
        assert(t2[i] == hex_digit(y[j] / 16));
    } else {
        assert(x[j] % 16 != y[j] % 16);
        lemma_hex_digit_injective(x[j] % 16, y[j] % 16);
        assert(t1[i] == hex_digit(x[j] % 16));
        assert(t2[i] == hex_digit(y[j] % 16));
    }
    assert(t1[i] != t2[i]);
}

/// Two registrations with two draws whose UUIDs differ: both plots are
/// served by the same server, under two different plot URLs; the first spec
/// is still stored under its id and the second under its own, and the latest
/// plot is the second.
pub proof fn law_two_draws_keep_both_plots(
    st: PlotRegistry,
    b1: Seq<u8>,
    a: Seq<char>,
    b2: Seq<u8>,
    b: Seq<char>,
)
    requires
        b1.len() == 16,
        b2.len() == 16,
        v4_bytes(b1) != v4_bytes(b2),
    ensures
        ({
            let id1 = hyphenated_hex(v4_bytes(b1));
            let id2 = hyphenated_hex(v4_bytes(b2));
            let st2 = PlotRegistry {
                base_url: st.base_url,
                specs: st.specs.insert(id1, a).insert(id2, b),
                latest: Some(id2),
                last_poll: st.last_poll,
            };
            &&& st.base_url + "/plot/"@ + id1 != st.base_url + "/plot/"@ + id2
            &&& has_prefix(st.base_url + "/plot/"@ + id1, st.base_url + "/"@)
            &&& has_prefix(st.base_url + "/plot/"@ + id2, st.base_url + "/"@)
            &&& st2.specs.contains_key(id1) && st2.specs[id1] == a
            &&& st2.specs.contains_key(id2) && st2.specs[id2] == b
        }),
{
    let id1 = hyphenated_hex(v4_bytes(b1));
    let id2 = hyphenated_hex(v4_bytes(b2));
    law_distinct_draws_give_distinct_ids(b1, b2);
    law_two_registrations(st, id1, a, id2, b);
    let prefix = st.base_url + "/plot/"@;
    if prefix + id1 == prefix + id2 {
        assert((prefix + id1).skip(prefix.len() as int) =~= id1);
        assert((prefix + id2).skip(prefix.len() as int) =~= id2);
    }
}

} // verus!
