//! The request-URL parameter template: an ordered key/value store with
//! unique keys, filled from a captured request URL, and the two ways a
//! session URL is rendered — from a captured template with the identity
//! values substituted in, or from the fixed fallback shape.

use vstd::prelude::*;

verus! {

use crate::text::url_pairs;
use crate::text::url_pairs_str;

/// Insert or overwrite one key: an existing key keeps its position and
/// takes the new value, a new key goes to the end.
pub open spec fn upsert(
    st: Seq<(Seq<char>, Seq<char>)>,
    k: Seq<char>,
    v: Seq<char>,
) -> Seq<(Seq<char>, Seq<char>)>
    decreases st.len(),
{
    if st.len() == 0 {
        seq![(k, v)]
    } else if st[0].0 == k {
        seq![(k, v)] + st.drop_first()
    } else {
        seq![st[0]] + upsert(st.drop_first(), k, v)
    }
}

/// Fold a pair list into a store, later values overwriting earlier ones.
pub open spec fn upsert_all(
    st: Seq<(Seq<char>, Seq<char>)>,
    ps: Seq<(Seq<char>, Seq<char>)>,
) -> Seq<(Seq<char>, Seq<char>)>
    decreases ps.len(),
{
    if ps.len() == 0 {
        st
    } else {
        upsert_all(upsert(st, ps[0].0, ps[0].1), ps.drop_first())
    }
}

/// The parameter template a URL yields: its query pairs, in order of first
/// appearance, the last value winning for a repeated key.
pub open spec fn spec_url_params(u: Seq<char>) -> Seq<(Seq<char>, Seq<char>)> {
    upsert_all(Seq::empty(), url_pairs(u))
}

proof fn lemma_upsert_found(st: Seq<(Seq<char>, Seq<char>)>, k: Seq<char>, v: Seq<char>, i: int)
    requires
        0 <= i < st.len(),
        st[i].0 == k,
        forall|j: int| 0 <= j < i ==> (#[trigger] st[j]).0 != k,
    ensures
        upsert(st, k, v) =~= st.update(i, (k, v)),
    decreases i,
{
    if i == 0 {
    } else {
        lemma_upsert_found(st.drop_first(), k, v, i - 1);
        assert(st.drop_first().update(i - 1, (k, v)) =~= st.update(i, (k, v)).drop_first());
    }
}

proof fn lemma_upsert_missing(st: Seq<(Seq<char>, Seq<char>)>, k: Seq<char>, v: Seq<char>)
    requires
        forall|j: int| 0 <= j < st.len() ==> (#[trigger] st[j]).0 != k,
    ensures
        upsert(st, k, v) =~= st.push((k, v)),
    decreases st.len(),
{
    if st.len() > 0 {
        lemma_upsert_missing(st.drop_first(), k, v);
        assert(st.drop_first().push((k, v)) =~= st.push((k, v)).drop_first());
    }
}

/// The ordered parameter template captured from a real request URL.
#[derive(Debug, PartialEq)]
pub struct UrlParams {
    /// The key/value pairs, in order of first appearance.
    pub pairs: Vec<(String, String)>,
}

impl UrlParams {
    /// The pairs as character sequences.
    pub open spec fn entries(self) -> Seq<(Seq<char>, Seq<char>)> {
        self.pairs@.map_values(|kv: (String, String)| (kv.0@, kv.1@))
    }

    /// No key occurs twice.
    pub open spec fn wf(self) -> bool {
        forall|i: int, j: int|
            0 <= i < j < self.entries().len() ==> (#[trigger] self.entries()[i]).0 != (
            #[trigger] self.entries()[j]).0
    }

    /// An empty template.
    pub fn new() -> (r: UrlParams)
        ensures
            r.entries().len() == 0,
            r.wf(),
    {
        UrlParams { pairs: Vec::new() }
    }

    /// How many parameters the template holds.
    pub fn len(&self) -> (r: usize)
        ensures
            r == self.entries().len(),
    {
        self.pairs.len()
    }

    /// Insert one pair: an existing key keeps its position and takes the
    /// new value, a new key goes to the end.
    pub fn insert(&mut self, k: String, v: String)
        ensures
            final(self).entries() == upsert(old(self).entries(), k@, v@),
            old(self).wf() ==> final(self).wf(),
    {
        let ghost st = self.entries();
        let n = self.pairs.len();
        let mut idx: usize = n;
        let mut i: usize = 0;
        while i < n
            invariant
                i <= n,
                n == self.pairs@.len(),
                st == self.entries(),
                idx <= n,
                idx == n ==> forall|j: int| 0 <= j < i ==> (#[trigger] st[j]).0 != k@,
                idx < n ==> st[idx as int].0 == k@ && forall|j: int|
                    0 <= j < idx ==> (#[trigger] st[j]).0 != k@,
            decreases n - i,
        {
            if idx == n && self.pairs[i].0.eq(&k) {
                idx = i;
            }
            i += 1;
        }
        if idx == n {
            proof {
                lemma_upsert_missing(st, k@, v@);
            }
            let ghost kv = (k@, v@);
            self.pairs.push((k, v));
            proof {
                assert(self.entries() =~= st.push(kv));
                if old(self).wf() {
                    assert forall|a: int, b: int|
                        0 <= a < b < self.entries().len() implies (
                    #[trigger] self.entries()[a]).0 != (#[trigger] self.entries()[b]).0 by {
                        if b < st.len() {
                            assert(self.entries()[a] == st[a] && self.entries()[b] == st[b]);
                        } else {
                            assert(self.entries()[a] == st[a] && self.entries()[b] == kv);
                        }
                    }
                }
            }
        } else {
            proof {
                lemma_upsert_found(st, k@, v@, idx as int);
            }
            let ghost target = st.update(idx as int, (k@, v@));
            let mut np: Vec<(String, String)> = Vec::new();
            let mut j: usize = 0;
            while j < n
                invariant
                    j <= n,
                    idx < n,
                    n == self.pairs@.len(),
                    st == self.entries(),
                    target == st.update(idx as int, (k@, v@)),
                    np@.len() == j,
                    forall|t: int|
                        0 <= t < j ==> ((#[trigger] np@[t]).0@, np@[t].1@) == target[t],
                decreases n - j,
            {
                if j == idx {
                    np.push((k.clone(), v.clone()));
                } else {
                    np.push((self.pairs[j].0.clone(), self.pairs[j].1.clone()));
                }
                j += 1;
            }
            self.pairs = np;
            proof {
                assert(self.entries() =~= target);
                if old(self).wf() {
                    assert forall|a: int, b: int|
                        0 <= a < b < self.entries().len() implies (
                    #[trigger] self.entries()[a]).0 != (#[trigger] self.entries()[b]).0 by {
                        assert(self.entries()[a].0 == st[a].0);
                        assert(self.entries()[b].0 == st[b].0);
                    }
                }
            }
        }
    }
}

impl Clone for UrlParams {
    /// A copy with the same entries.
    fn clone(&self) -> (r: UrlParams)
        ensures
            r.entries() == self.entries(),
    {
        let mut pairs: Vec<(String, String)> = Vec::new();
        let mut i: usize = 0;
        while i < self.pairs.len()
            invariant
                i <= self.pairs@.len(),
                pairs@.len() == i,
                forall|j: int|
                    0 <= j < i ==> (#[trigger] pairs@[j]).0@ == self.pairs@[j].0@ && pairs@[j].1@
                        == self.pairs@[j].1@,
            decreases self.pairs@.len() - i,
        {
            pairs.push((self.pairs[i].0.clone(), self.pairs[i].1.clone()));
            i += 1;
        }
        let r = UrlParams { pairs };
        assert(r.entries() =~= self.entries());
        r
    }
}

/// Parse the query parameters out of a request URL into a template.
pub fn parse_asr_url_params(url: &str) -> (r: UrlParams)
    ensures
        r.entries() == spec_url_params(url@),
        r.wf(),
{
    let raw = url_pairs_str(url);
    let ghost raw_entries = raw@.map_values(|kv: (String, String)| (kv.0@, kv.1@));
    let mut p = UrlParams::new();
    let mut i: usize = 0;
    assert(raw_entries.subrange(0, raw_entries.len() as int) =~= raw_entries);
    while i < raw.len()
        invariant
            i <= raw@.len(),
            raw_entries == raw@.map_values(|kv: (String, String)| (kv.0@, kv.1@)),
            p.wf(),
            upsert_all(p.entries(), raw_entries.subrange(i as int, raw_entries.len() as int))
                == spec_url_params(url@),
        decreases raw@.len() - i,
    {
        let ghost rest = raw_entries.subrange(i as int, raw_entries.len() as int);
        proof {
            assert(rest[0] == raw_entries[i as int]);
            assert(rest.drop_first() =~= raw_entries.subrange(i + 1, raw_entries.len() as int));
        }
        let k = raw[i].0.clone();
        let v = raw[i].1.clone();
        p.insert(k, v);
        i += 1;
    }
    proof {
        assert(raw_entries.subrange(raw_entries.len() as int, raw_entries.len() as int).len()
            == 0);
    }
    p
}

/// The value rendered for one template key: the identity parameters are
/// replaced with this session's values, the fingerprint is derived from
/// the web identity, and every other key keeps the captured value.
pub open spec fn render_value(
    k: Seq<char>,
    v: Seq<char>,
    device_id: Seq<char>,
    web_id: Seq<char>,
    pc_version: Seq<char>,
    chromium_version: Seq<char>,
    web_tab_id: Seq<char>,
) -> Seq<char> {
    if k == "fp"@ {
        "verify_"@ + web_id
    } else if k == "device_id"@ {
        device_id
    } else if k == "web_id"@ {
        web_id
    } else if k == "tea_uuid"@ {
        device_id
    } else if k == "pc_version"@ {
        pc_version
    } else if k == "chromium_version"@ {
        chromium_version
    } else if k == "web_tab_id"@ {
        web_tab_id
    } else {
        v
    }
}

/// The rendered query string: `key=value` pairs joined by `&`, in template
/// order.
pub open spec fn render_query(
    ps: Seq<(Seq<char>, Seq<char>)>,
    device_id: Seq<char>,
    web_id: Seq<char>,
    pc_version: Seq<char>,
    chromium_version: Seq<char>,
    web_tab_id: Seq<char>,
) -> Seq<char>
    decreases ps.len(),
{
    if ps.len() == 0 {
        Seq::empty()
    } else {
        let prev = render_query(
            ps.drop_last(),
            device_id,
            web_id,
            pc_version,
            chromium_version,
            web_tab_id,
        );
        let kv = ps.last().0 + "="@ + render_value(
            ps.last().0,
            ps.last().1,
            device_id,
            web_id,
            pc_version,
            chromium_version,
            web_tab_id,
        );
        if ps.len() == 1 {
            kv
        } else {
            prev + "&"@ + kv
        }
    }
}

/// The session URL rendered from a captured template.
pub open spec fn spec_template_url(
    ps: Seq<(Seq<char>, Seq<char>)>,
    device_id: Seq<char>,
    web_id: Seq<char>,
    pc_version: Seq<char>,
    chromium_version: Seq<char>,
    web_tab_id: Seq<char>,
) -> Seq<char> {
    "wss://ws-samantha.doubao.com/samantha/audio/asr?"@ + render_query(
        ps,
        device_id,
        web_id,
        pc_version,
        chromium_version,
        web_tab_id,
    )
}

fn render_value_str(
    k: &String,
    v: &String,
    device_id: &str,
    web_id: &str,
    pc_version: &str,
    chromium_version: &str,
    web_tab_id: &str,
) -> (r: String)
    ensures
        r@ == render_value(
            k@,
            v@,
            device_id@,
            web_id@,
            pc_version@,
            chromium_version@,
            web_tab_id@,
        ),
{
    if k.eq(&String::from_str("fp")) {
        let mut s = String::from_str("verify_");
        s.append(web_id);
        s
    } else if k.eq(&String::from_str("device_id")) {
        String::from_str(device_id)
    } else if k.eq(&String::from_str("web_id")) {
        String::from_str(web_id)
    } else if k.eq(&String::from_str("tea_uuid")) {
        String::from_str(device_id)
    } else if k.eq(&String::from_str("pc_version")) {
        String::from_str(pc_version)
    } else if k.eq(&String::from_str("chromium_version")) {
        String::from_str(chromium_version)
    } else if k.eq(&String::from_str("web_tab_id")) {
        String::from_str(web_tab_id)
    } else {
        v.clone()
    }
}

/// Render the session URL from a captured parameter template, substituting
/// this session's identity values.
pub fn build_asr_url_from_template(
    params: &UrlParams,
    device_id: &str,
    web_id: &str,
    pc_version: &str,
    chromium_version: &str,
    web_tab_id: &str,
) -> (r: String)
    ensures
        r@ == spec_template_url(
            params.entries(),
            device_id@,
            web_id@,
            pc_version@,
            chromium_version@,
            web_tab_id@,
        ),
{
    let ghost es = params.entries();
    let mut out = String::from_str("wss://ws-samantha.doubao.com/samantha/audio/asr?");
    let mut i: usize = 0;
    while i < params.pairs.len()
        invariant
            i <= params.pairs@.len(),
            es == params.entries(),
            out@ == "wss://ws-samantha.doubao.com/samantha/audio/asr?"@ + render_query(
                es.subrange(0, i as int),
                device_id@,
                web_id@,
                pc_version@,
                chromium_version@,
                web_tab_id@,
            ),
        decreases params.pairs@.len() - i,
    {
        proof {
            assert(es.subrange(0, i + 1).drop_last() =~= es.subrange(0, i as int));
            assert(es.subrange(0, i + 1).last() == es[i as int]);
        }
        if i > 0 {
            out.append("&");
        }
        out.append(params.pairs[i].0.as_str());
        out.append("=");
        let val = render_value_str(
            &params.pairs[i].0,
            &params.pairs[i].1,
            device_id,
            web_id,
            pc_version,
            chromium_version,
            web_tab_id,
        );
        out.append(val.as_str());
        i += 1;
    }
    proof {
        assert(es.subrange(0, es.len() as int) =~= es);
    }
    out
}

/// The fixed fallback URL shape, with the identity values substituted in.
pub open spec fn spec_default_url(
    device_id: Seq<char>,
    web_id: Seq<char>,
    pc_version: Seq<char>,
    chromium_version: Seq<char>,
    web_tab_id: Seq<char>,
) -> Seq<char> {
    "wss://ws-samantha.doubao.com/samantha/audio/asr?version_code=20800&language=zh&device_platform=web&aid=582478&real_aid=582478&pkg_type=release_version&device_id="@
        + device_id + "&pc_version="@ + pc_version + "&web_id="@ + web_id + "&tea_uuid="@
        + device_id
        + "&region=&sys_region=&samantha_web=1&use-olympus-account=1&runtime=web&runtime_version=2.51.3&client_platform=pc_client&chromium_version="@
        + chromium_version + "&fp=verify_"@ + web_id + "&web_tab_id="@ + web_tab_id
        + "&format=pcm"@
}

/// Render the fallback session URL used when no template was captured.
pub fn build_asr_url(
    device_id: &str,
    web_id: &str,
    pc_version: &str,
    chromium_version: &str,
    web_tab_id: &str,
) -> (r: String)
    ensures
        r@ == spec_default_url(device_id@, web_id@, pc_version@, chromium_version@, web_tab_id@),
{
    let mut out = String::from_str(
        "wss://ws-samantha.doubao.com/samantha/audio/asr?version_code=20800&language=zh&device_platform=web&aid=582478&real_aid=582478&pkg_type=release_version&device_id=",
    );
    out.append(device_id);
    out.append("&pc_version=");
    out.append(pc_version);
    out.append("&web_id=");
    out.append(web_id);
    out.append("&tea_uuid=");
    out.append(device_id);
    out.append(
        "&region=&sys_region=&samantha_web=1&use-olympus-account=1&runtime=web&runtime_version=2.51.3&client_platform=pc_client&chromium_version=",
    );
    out.append(chromium_version);
    out.append("&fp=verify_");
    out.append(web_id);
    out.append("&web_tab_id=");
    out.append(web_tab_id);
    out.append("&format=pcm");
    out
}

} // verus!
