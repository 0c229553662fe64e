use vstd::prelude::*;
use vstd::string::StringSliceAdditionalSpecFns;
use base64::Engine;
use crate::text::{chars_of, decimal, decimal_spec, join_strings, join_texts, strings_view};
use crate::types::Connection;

verus! {

/// The parts of a node's address, each a slice of the address.
#[derive(Debug)]
pub struct NodeUri<'a> {
    pub kind: char,
    pub version: &'a str,
    pub category: &'a str,
    pub domain: &'a str,
    pub id: &'a str,
}

/// The parts of an address of any kind, each a slice of the address.
#[derive(Debug)]
pub struct RnsUria<'a> {
    pub kind: char,
    pub version: &'a str,
    pub category: &'a str,
    pub domain: &'a str,
    pub id: &'a str,
}

/// An address: that of a node, with its parts, or that of a destination.
pub enum RnsUri<'a> {
    Node(NodeUri<'a>),
    Destination,
}

/// The parts of an address and what follows the address in the input.
pub struct UriParts {
    pub kind: char,
    pub version: Seq<char>,
    pub category: Seq<char>,
    pub domain: Seq<char>,
    pub id: Seq<char>,
    pub rest: Seq<char>,
}

impl<'a> View for RnsUria<'a> {
    type V = UriParts;

    /// The parts as characters; `rest` is left empty.
    open spec fn view(&self) -> UriParts {
        UriParts {
            kind: self.kind,
            version: self.version@,
            category: self.category@,
            domain: self.domain@,
            id: self.id@,
            rest: Seq::empty(),
        }
    }
}

impl<'a> View for NodeUri<'a> {
    type V = UriParts;

    /// The parts as characters; `rest` is left empty.
    open spec fn view(&self) -> UriParts {
        UriParts {
            kind: self.kind,
            version: self.version@,
            category: self.category@,
            domain: self.domain@,
            id: self.id@,
            rest: Seq::empty(),
        }
    }
}

/// What `parse_url` reads: the parts of a node's address, or nothing for a
/// destination's, and what follows the address in the input.
pub struct UrlView {
    pub node: Option<UriParts>,
    pub rest: Seq<char>,
}

/// The URL-safe base64 text without padding that the crate base64 makes of
/// a sequence of bytes.
pub uninterp spec fn base64_url_of(bytes: Seq<u8>) -> Seq<char>;

/// Index of the first `/` of `s` at or after `from`; `s.len()` if none.
pub open spec fn find_slash(s: Seq<char>, from: int) -> int
    decreases s.len() - from,
{
    if from >= s.len() {
        s.len() as int
    } else if s[from] == '/' {
        from
    } else {
        find_slash(s, from + 1)
    }
}

/// `s` begins with `rns://`, one of the letters in `kinds`, and `/`.
pub open spec fn has_head(s: Seq<char>, kinds: Seq<char>) -> bool {
    &&& s.len() >= 8
    &&& s.subrange(0, 6) == "rns://"@
    &&& kinds.contains(s[6])
    &&& s[7] == '/'
}

/// The address at the start of `s`: the head, then four parts, each ended
/// by a `/`. `None` where `s` does not begin so.
pub open spec fn parse_spec(s: Seq<char>, kinds: Seq<char>) -> Option<UriParts> {
    let e1 = find_slash(s, 8);
    let e2 = find_slash(s, e1 + 1);
    let e3 = find_slash(s, e2 + 1);
    let e4 = find_slash(s, e3 + 1);
    if has_head(s, kinds) && e1 < s.len() && e2 < s.len() && e3 < s.len() && e4 < s.len() {
        Some(
            UriParts {
                kind: s[6],
                version: s.subrange(8, e1),
                category: s.subrange(e1 + 1, e2),
                domain: s.subrange(e2 + 1, e3),
                id: s.subrange(e3 + 1, e4),
                rest: s.subrange(e4 + 1, s.len() as int),
            },
        )
    } else {
        None
    }
}

/// The address at the start of `s`, of a node or of a destination. A node's
/// address has five parts, of which the second is passed over; a
/// destination's has four, which are read and not kept.
pub open spec fn parse_url_spec(s: Seq<char>) -> Option<UrlView> {
    let e1 = find_slash(s, 8);
    let e2 = find_slash(s, e1 + 1);
    let e3 = find_slash(s, e2 + 1);
    let e4 = find_slash(s, e3 + 1);
    let e5 = find_slash(s, e4 + 1);
    if !(has_head(s, "DN"@) && e1 < s.len() && e2 < s.len() && e3 < s.len() && e4 < s.len()) {
        None
    } else if s[6] == 'D' {
        Some(UrlView { node: None, rest: s.subrange(e4 + 1, s.len() as int) })
    } else if e5 < s.len() {
        Some(
            UrlView {
                node: Some(
                    UriParts {
                        kind: s[6],
                        version: s.subrange(8, e1),
                        category: s.subrange(e2 + 1, e3),
                        domain: s.subrange(e3 + 1, e4),
                        id: s.subrange(e4 + 1, e5),
                        rest: Seq::empty(),
                    },
                ),
                rest: s.subrange(e5 + 1, s.len() as int),
            },
        )
    } else {
        None
    }
}

/// What a parsed address holds, with what follows it.
pub open spec fn url_view(uri: RnsUri<'_>, rest: Seq<char>) -> UrlView {
    match uri {
        RnsUri::Node(n) => UrlView { node: Some(n@), rest },
        RnsUri::Destination => UrlView { node: None, rest },
    }
}

/// One address with one connection, as a node's address lists them.
pub open spec fn pair_text(hash: Seq<char>, connection: Seq<char>) -> Seq<char> {
    "("@ + hash + " "@ + connection + ")"@
}

/// The pairs of the `n` first addresses and connections.
pub open spec fn pair_texts(hashes: Seq<Seq<char>>, connections: Seq<Connection>, n: nat) -> Seq<
    Seq<char>,
> {
    Seq::new(n, |i: int| pair_text(hashes[i], connections[i].text()))
}

/// A node's address: version, public key in base64, and the node's addresses
/// paired with its connections, as many as both lists have.
pub open spec fn node_url_spec(
    version: u16,
    hashes: Seq<Seq<char>>,
    public_key: Seq<u8>,
    connections: Seq<Connection>,
) -> Seq<char> {
    let n = if hashes.len() <= connections.len() {
        hashes.len()
    } else {
        connections.len()
    };
    "rns://N/"@ + decimal_spec(version as nat) + "/"@ + base64_url_of(public_key) + "/"@
        + join_texts(pair_texts(hashes, connections, n), ","@) + "//"@
}

/// A destination's address: version, the two names in base64, and the
/// destination's addresses.
pub open spec fn destination_url_spec(
    version: u16,
    destination_name: Seq<u8>,
    application_space: Seq<u8>,
    hashes: Seq<Seq<char>>,
) -> Seq<char> {
    "rns://D/"@ + decimal_spec(version as nat) + "/"@ + base64_url_of(destination_name) + "/"@
        + base64_url_of(application_space) + "/"@ + join_texts(hashes, ","@) + "//"@
}

/// `Engine::encode` of the crate base64, on its engine `URL_SAFE_NO_PAD`:
/// the text depends on the bytes alone; it is given the name `base64_url_of`.
#[verifier::external_body]
fn encode_url_safe(bytes: &[u8]) -> (text: String)
    ensures
        text@ == base64_url_of(bytes@),
{
    base64::engine::general_purpose::URL_SAFE_NO_PAD.encode(bytes)
}

/// Index of the first `/` at or after `from`, or the length if there is none.
pub fn next_slash(chars: &[char], from: usize) -> (at: usize)
    requires
        from <= chars@.len(),
    ensures
        at == find_slash(chars@, from as int),
        from <= at <= chars@.len(),
{
    let mut j: usize = from;
    while j < chars.len() && chars[j] != '/'
        invariant
            from <= j <= chars@.len(),
            find_slash(chars@, from as int) == find_slash(chars@, j as int),
        decreases chars@.len() - j,
    {
        j += 1;
    }
    j
}

/// Reads the address at the start of `input`, of one of the kinds in `kinds`.
pub fn parse_address<'a>(input: &'a str, kinds: &str) -> (r: Option<(&'a str, RnsUria<'a>)>)
    ensures
        match r {
            Some((rest, uri)) => parse_spec(input@, kinds@) == Some(
                UriParts { rest: rest@, ..uri@ },
            ),
            None => parse_spec(input@, kinds@).is_none(),
        },
{
    let s = chars_of(input);
    let k = chars_of(kinds);
    let n = s.len();
    proof {
        reveal_strlit("rns://");
    }
    if n < 8 || s[0] != 'r' || s[1] != 'n' || s[2] != 's' || s[3] != ':' || s[4] != '/' || s[5]
        != '/' || s[7] != '/' {
        assert(n >= 8 ==> s@.subrange(0, 6)[0] == s@[0] && s@.subrange(0, 6)[1] == s@[1]
            && s@.subrange(0, 6)[2] == s@[2] && s@.subrange(0, 6)[3] == s@[3] && s@.subrange(
            0,
            6,
        )[4] == s@[4] && s@.subrange(0, 6)[5] == s@[5]);
        return None;
    }
    assert(s@.subrange(0, 6) =~= "rns://"@);
    let kind = s[6];
    let mut known = false;
    let mut i: usize = 0;
    while i < k.len()
        invariant
            i <= k@.len(),
            known == k@.take(i as int).contains(kind),
        decreases k@.len() - i,
    {
        if k[i] == kind {
            known = true;
        }
        proof {
            let before = k@.take(i as int);
            let after = k@.take(i + 1);
            assert(after =~= before.push(k@[i as int]));
            if before.contains(kind) {
                let w = choose|w: int| 0 <= w < before.len() && before[w] == kind;
                assert(after[w] == kind);
            }
            if k@[i as int] == kind {
                assert(after[i as int] == kind);
            }
        }
        i += 1;
    }
    assert(k@.take(i as int) =~= k@);
    if !known {
        return None;
    }
    let e1 = next_slash(s.as_slice(), 8);
    if e1 >= n {
        return None;
    }
    let e2 = next_slash(s.as_slice(), e1 + 1);
    if e2 >= n {
        return None;
    }
    let e3 = next_slash(s.as_slice(), e2 + 1);
    if e3 >= n {
        return None;
    }
    let e4 = next_slash(s.as_slice(), e3 + 1);
    if e4 >= n {
        return None;
    }
    let uri = RnsUria {
        kind,
        version: input.substring_char(8, e1),
        category: input.substring_char(e1 + 1, e2),
        domain: input.substring_char(e2 + 1, e3),
        id: input.substring_char(e3 + 1, e4),
    };
    let rest = input.substring_char(e4 + 1, n);
    Some((rest, uri))
}

/// Reads the address at the start of `input`: `rns://`, one of the letters
/// `D`, `N` and `S`, a `/`, and four parts that each end with a `/`. Gives
/// the parts and what follows them, or `None` where the input does not begin
/// with an address.
pub fn parse_rns(input: &str) -> (r: Option<(&str, RnsUria<'_>)>)
    ensures
        match r {
            Some((rest, uri)) => parse_spec(input@, "DNS"@) == Some(
                UriParts { rest: rest@, ..uri@ },
            ),
            None => parse_spec(input@, "DNS"@).is_none(),
        },
{
    parse_address(input, "DNS")
}

/// Reads the address of a node or of a destination at the start of `input`:
/// `rns://`, the letter `N` or `D`, a `/`, and the parts, each ended by a
/// `/`. Gives the node's parts, or that it is a destination, and what
/// follows; `None` where the input does not begin with such an address.
pub fn parse_url(input: &str) -> (r: Option<(&str, RnsUri<'_>)>)
    ensures
        match r {
            Some((rest, uri)) => parse_url_spec(input@) == Some(url_view(uri, rest@)),
            None => parse_url_spec(input@).is_none(),
        },
{
    proof {
        reveal_strlit("DN");
    }
    let (after, head) = match parse_address(input, "DN") {
        Some(found) => found,
        None => {
            return None;
        },
    };
    let ghost s = input@;
    let ghost e1 = find_slash(s, 8);
    let ghost e2 = find_slash(s, e1 + 1);
    let ghost e3 = find_slash(s, e2 + 1);
    let ghost e4 = find_slash(s, e3 + 1);
    proof {
        lemma_find_slash(s, 8);
        lemma_find_slash(s, e1 + 1);
        lemma_find_slash(s, e2 + 1);
        lemma_find_slash(s, e3 + 1);
        assert(after@ == s.subrange(e4 + 1, s.len() as int));
    }
    if head.kind == 'D' {
        return Some((after, RnsUri::Destination));
    }
    assert("DN"@.contains(s[6]));
    assert(s[6] == 'N');
    let chars = chars_of(after);
    let e = next_slash(chars.as_slice(), 0);
    proof {
        lemma_find_slash_after(s, e4 + 1, 0);
        lemma_find_slash(s, e4 + 1);
    }
    if e >= chars.len() {
        return None;
    }
    let id = after.substring_char(0, e);
    let rest = after.substring_char(e + 1, chars.len());
    proof {
        assert(id@ =~= s.subrange(e4 + 1, e4 + 1 + e));
        assert(rest@ =~= s.subrange(e4 + 1 + e + 1, s.len() as int));
    }
    let node = NodeUri {
        kind: head.kind,
        version: head.version,
        category: head.domain,
        domain: head.id,
        id,
    };
    Some((rest, RnsUri::Node(node)))
}

/// The first `/` at or after an index lies at or after it, within the text.
pub proof fn lemma_find_slash(s: Seq<char>, from: int)
    requires
        0 <= from <= s.len(),
    ensures
        from <= find_slash(s, from) <= s.len(),
    decreases s.len() - from,
{
    if from < s.len() && s[from] != '/' {
        lemma_find_slash(s, from + 1);
    }
}

/// The first `/` of what follows index `cut`, counted from `cut`.
pub proof fn lemma_find_slash_after(s: Seq<char>, cut: int, from: int)
    requires
        0 <= cut <= s.len(),
        0 <= from,
    ensures
        find_slash(s.subrange(cut, s.len() as int), from) + cut == find_slash(s, cut + from),
    decreases s.len() - cut - from,
{
    let t = s.subrange(cut, s.len() as int);
    if from < t.len() {
        assert(t[from] == s[cut + from]);
        if t[from] != '/' {
            lemma_find_slash_after(s, cut, from + 1);
        }
    }
}

/// The text of each connection.
pub fn connection_texts(connections: &Vec<Connection>) -> (out: Vec<String>)
    ensures
        out@.len() == connections@.len(),
        forall|i: int| 0 <= i < out@.len() ==> out@[i]@ == connections@[i].text(),
{
    let mut out: Vec<String> = Vec::new();
    let mut i: usize = 0;
    while i < connections.len()
        invariant
            i <= connections@.len(),
            out@.len() == i,
            forall|j: int| 0 <= j < i ==> out@[j]@ == connections@[j].text(),
        decreases connections@.len() - i,
    {
        out.push(connections[i].to_string());
        i += 1;
    }
    out
}

/// A node's address, from the version, the node's addresses as they are
/// written, the bytes of its public key, and its connections.
pub fn generate_node_url(
    version: &u16,
    address_hash: &Vec<String>,
    public_key: &[u8],
    interfaces: &Vec<Connection>,
) -> (url: String)
    ensures
        url@ == node_url_spec(*version, strings_view(address_hash@), public_key@, interfaces@),
{
    let encoded_public_key = encode_url_safe(public_key);
    let texts = connection_texts(interfaces);
    let n = if address_hash.len() <= texts.len() {
        address_hash.len()
    } else {
        texts.len()
    };
    let mut pairs: Vec<String> = Vec::new();
    let mut i: usize = 0;
    while i < n
        invariant
            i <= n,
            n <= address_hash@.len(),
            n <= texts@.len(),
            texts@.len() == interfaces@.len(),
            forall|j: int| 0 <= j < texts@.len() ==> texts@[j]@ == interfaces@[j].text(),
            pairs@.len() == i,
            forall|j: int|
                0 <= j < i ==> pairs@[j]@ == pair_text(address_hash@[j]@, interfaces@[j].text()),
        decreases n - i,
    {
        let mut pair = String::from_str("(");
        pair.append(address_hash[i].as_str());
        pair.append(" ");
        pair.append(texts[i].as_str());
        pair.append(")");
        pairs.push(pair);
        i += 1;
    }
    assert(strings_view(pairs@) =~= pair_texts(
        strings_view(address_hash@),
        interfaces@,
        n as nat,
    ));
    let zip = join_strings(&pairs, ",");
    let mut url = String::from_str("rns://N/");
    url.append(decimal(*version as u64).as_str());
    url.append("/");
    url.append(encoded_public_key.as_str());
    url.append("/");
    url.append(zip.as_str());
    url.append("//");
    url
}

/// A destination's address, from the version, the destination's name, the
/// application's name, and the destination's addresses as they are written.
pub fn generate_destination_url(
    version: &u16,
    destination_name: &str,
    application_space: &str,
    address_hash: &Vec<String>,
) -> (url: String)
    ensures
        url@ == destination_url_spec(
            *version,
            destination_name.spec_bytes(),
            application_space.spec_bytes(),
            strings_view(address_hash@),
        ),
{
    let encoded_destination_name = encode_url_safe(destination_name.as_bytes());
    let encoded_application_name = encode_url_safe(application_space.as_bytes());
    let hashes = join_strings(address_hash, ",");
    let mut url = String::from_str("rns://D/");
    url.append(decimal(*version as u64).as_str());
    url.append("/");
    url.append(encoded_destination_name.as_str());
    url.append("/");
    url.append(encoded_application_name.as_str());
    url.append("/");
    url.append(hashes.as_str());
    url.append("//");
    url
}

} // verus!
