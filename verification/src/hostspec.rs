//! Structured virtual hostname grammar.
//!
//! A hostname such as `pod--app.namespace--ns.context--ctx.sshpod` names a
//! workload: trailing dots are trimmed, the `.sshpod` suffix is required, and
//! the remaining prefix is a dot-separated list of tokens in any order.
//! Exactly one token names the target (`pod--`, `deployment--`, `job--`, or a
//! bare pod name); `container--`, `namespace--` and `context--` tokens are
//! optional and may appear at most once each.

use vstd::multiset::Multiset;
use vstd::prelude::*;

verus! {

/// The workload a hostname points at.
#[derive(Debug, Clone, PartialEq, Eq)]
pub enum Target {
    Pod(String),
    Deployment(String),
    Job(String),
}

/// The decoded form of a virtual hostname.
#[derive(Debug, Clone, PartialEq, Eq)]
pub struct HostSpec {
    pub target: Target,
    pub namespace: Option<String>,
    pub context: Option<String>,
    pub container: Option<String>,
}

/// The two ways a hostname can be rejected.
#[derive(Debug, Clone, Copy, PartialEq, Eq, Structural)]
pub enum HostSpecError {
    /// The hostname does not end in `.sshpod`.
    MissingSuffix,
    /// The prefix tokens do not form exactly one target with optional,
    /// unrepeated qualifiers, each with a non-empty value.
    InvalidFormat,
}

/// Mathematical image of `Target`.
pub enum TargetView {
    Pod(Seq<char>),
    Deployment(Seq<char>),
    Job(Seq<char>),
}

/// Mathematical image of `HostSpec`.
pub struct HostSpecView {
    pub target: TargetView,
    pub namespace: Option<Seq<char>>,
    pub context: Option<Seq<char>>,
    pub container: Option<Seq<char>>,
}

impl View for Target {
    type V = TargetView;

    open spec fn view(&self) -> TargetView {
        match self {
            Target::Pod(n) => TargetView::Pod(n@),
            Target::Deployment(n) => TargetView::Deployment(n@),
            Target::Job(n) => TargetView::Job(n@),
        }
    }
}

impl View for HostSpec {
    type V = HostSpecView;

    open spec fn view(&self) -> HostSpecView {
        HostSpecView {
            target: self.target@,
            namespace: match self.namespace {
                Option::Some(n) => Option::Some(n@),
                Option::None => Option::None,
            },
            context: match self.context {
                Option::Some(n) => Option::Some(n@),
                Option::None => Option::None,
            },
            container: match self.container {
                Option::Some(n) => Option::Some(n@),
                Option::None => Option::None,
            },
        }
    }
}

// ---------------------------------------------------------------------------
// Spec-level grammar
// ---------------------------------------------------------------------------

pub open spec fn spec_suffix() -> Seq<char> {
    seq!['.', 's', 's', 'h', 'p', 'o', 'd']
}

pub open spec fn spec_container_prefix() -> Seq<char> {
    seq!['c', 'o', 'n', 't', 'a', 'i', 'n', 'e', 'r', '-', '-']
}

pub open spec fn spec_namespace_prefix() -> Seq<char> {
    seq!['n', 'a', 'm', 'e', 's', 'p', 'a', 'c', 'e', '-', '-']
}

pub open spec fn spec_context_prefix() -> Seq<char> {
    seq!['c', 'o', 'n', 't', 'e', 'x', 't', '-', '-']
}

pub open spec fn spec_pod_prefix() -> Seq<char> {
    seq!['p', 'o', 'd', '-', '-']
}

pub open spec fn spec_deployment_prefix() -> Seq<char> {
    seq!['d', 'e', 'p', 'l', 'o', 'y', 'm', 'e', 'n', 't', '-', '-']
}

pub open spec fn spec_job_prefix() -> Seq<char> {
    seq!['j', 'o', 'b', '-', '-']
}

pub open spec fn has_prefix(s: Seq<char>, p: Seq<char>) -> bool {
    s.len() >= p.len() && s.take(p.len() as int) == p
}

pub open spec fn has_suffix(s: Seq<char>, p: Seq<char>) -> bool {
    s.len() >= p.len() && s.skip(s.len() - p.len()) == p
}

/// Drop every trailing `'.'`.
pub open spec fn trim_dots(s: Seq<char>) -> Seq<char>
    decreases s.len(),
{
    if s.len() > 0 && s[s.len() - 1] == '.' {
        trim_dots(s.drop_last())
    } else {
        s
    }
}

pub open spec fn split_dots(s: Seq<char>) -> Seq<Seq<char>> {
    crate::strutil::split_char(s, '.')
}

/// What a single token contributes to the hostname.
pub enum TokenView {
    Container(Seq<char>),
    Namespace(Seq<char>),
    Context(Seq<char>),
    TargetTok(TargetView),
    Invalid,
}

/// The four token categories that the grammar counts, plus the rejected one.
pub enum TokenKind {
    ContainerKind,
    NamespaceKind,
    ContextKind,
    TargetKind,
    InvalidKind,
}

pub open spec fn classify_token(t: Seq<char>) -> TokenView {
    if has_prefix(t, spec_container_prefix()) {
        if t.len() > spec_container_prefix().len() {
            TokenView::Container(t.skip(spec_container_prefix().len() as int))
        } else {
            TokenView::Invalid
        }
    } else if has_prefix(t, spec_namespace_prefix()) {
        if t.len() > spec_namespace_prefix().len() {
            TokenView::Namespace(t.skip(spec_namespace_prefix().len() as int))
        } else {
            TokenView::Invalid
        }
    } else if has_prefix(t, spec_context_prefix()) {
        if t.len() > spec_context_prefix().len() {
            TokenView::Context(t.skip(spec_context_prefix().len() as int))
        } else {
            TokenView::Invalid
        }
    } else if has_prefix(t, spec_pod_prefix()) {
        if t.len() > spec_pod_prefix().len() {
            TokenView::TargetTok(TargetView::Pod(t.skip(spec_pod_prefix().len() as int)))
        } else {
            TokenView::Invalid
        }
    } else if has_prefix(t, spec_deployment_prefix()) {
        if t.len() > spec_deployment_prefix().len() {
            TokenView::TargetTok(TargetView::Deployment(t.skip(spec_deployment_prefix().len() as int)))
        } else {
            TokenView::Invalid
        }
    } else if has_prefix(t, spec_job_prefix()) {
        if t.len() > spec_job_prefix().len() {
            TokenView::TargetTok(TargetView::Job(t.skip(spec_job_prefix().len() as int)))
        } else {
            TokenView::Invalid
        }
    } else if t.len() == 0 {
        TokenView::Invalid
    } else {
        TokenView::TargetTok(TargetView::Pod(t))
    }
}

pub open spec fn kind_of(t: Seq<char>) -> TokenKind {
    match classify_token(t) {
        TokenView::Container(_) => TokenKind::ContainerKind,
        TokenView::Namespace(_) => TokenKind::NamespaceKind,
        TokenView::Context(_) => TokenKind::ContextKind,
        TokenView::TargetTok(_) => TokenKind::TargetKind,
        TokenView::Invalid => TokenKind::InvalidKind,
    }
}

/// The value carried by a qualifier token.
pub open spec fn token_value(t: Seq<char>) -> Seq<char> {
    match classify_token(t) {
        TokenView::Container(v) => v,
        TokenView::Namespace(v) => v,
        TokenView::Context(v) => v,
        TokenView::TargetTok(_) => Seq::empty(),
        TokenView::Invalid => Seq::empty(),
    }
}

/// The target named by a target token.
pub open spec fn token_target(t: Seq<char>) -> TargetView {
    match classify_token(t) {
        TokenView::TargetTok(tv) => tv,
        _ => TargetView::Pod(Seq::empty()),
    }
}

pub open spec fn kind_pred(k: TokenKind) -> spec_fn(Seq<char>) -> bool {
    |t: Seq<char>| kind_of(t) == k
}

/// The tokens of category `k`, as a multiset: the grammar never depends on
/// token order, only on this collection.
pub open spec fn kind_ms(toks: Seq<Seq<char>>, k: TokenKind) -> Multiset<Seq<char>> {
    toks.to_multiset().filter(kind_pred(k))
}

pub open spec fn kind_count(toks: Seq<Seq<char>>, k: TokenKind) -> nat {
    kind_ms(toks, k).len()
}

/// When category `k` occurs exactly once, the token that occurrence is.
pub open spec fn the_token(toks: Seq<Seq<char>>, k: TokenKind) -> Seq<char> {
    kind_ms(toks, k).choose()
}

pub open spec fn tokens_well_formed(toks: Seq<Seq<char>>) -> bool {
    &&& kind_count(toks, TokenKind::InvalidKind) == 0
    &&& kind_count(toks, TokenKind::TargetKind) == 1
    &&& kind_count(toks, TokenKind::ContainerKind) <= 1
    &&& kind_count(toks, TokenKind::NamespaceKind) <= 1
    &&& kind_count(toks, TokenKind::ContextKind) <= 1
}

pub open spec fn opt_value(toks: Seq<Seq<char>>, k: TokenKind) -> Option<Seq<char>> {
    if kind_count(toks, k) == 1 {
        Option::Some(token_value(the_token(toks, k)))
    } else {
        Option::None
    }
}

pub open spec fn spec_parse_tokens(toks: Seq<Seq<char>>) -> Result<HostSpecView, HostSpecError> {
    if tokens_well_formed(toks) {
        Result::Ok(HostSpecView {
            target: token_target(the_token(toks, TokenKind::TargetKind)),
            namespace: opt_value(toks, TokenKind::NamespaceKind),
            context: opt_value(toks, TokenKind::ContextKind),
            container: opt_value(toks, TokenKind::ContainerKind),
        })
    } else {
        Result::Err(HostSpecError::InvalidFormat)
    }
}

/// The whole grammar: trim trailing dots, require the `.sshpod` suffix, and
/// read the remaining dot-separated tokens.
pub open spec fn spec_parse(s: Seq<char>) -> Result<HostSpecView, HostSpecError> {
    let trimmed = trim_dots(s);
    if !has_suffix(trimmed, spec_suffix()) {
        Result::Err(HostSpecError::MissingSuffix)
    } else {
        spec_parse_tokens(split_dots(trimmed.take(trimmed.len() - spec_suffix().len())))
    }
}

// ---------------------------------------------------------------------------
// Facts about the token multiset
// ---------------------------------------------------------------------------

proof fn lemma_kind_ms_empty(k: TokenKind)
    ensures
        kind_ms(Seq::<Seq<char>>::empty(), k) == Multiset::<Seq<char>>::empty(),
        kind_count(Seq::<Seq<char>>::empty(), k) == 0,
{
    broadcast use vstd::seq_lib::group_to_multiset_ensures;
    broadcast use vstd::multiset::group_multiset_axioms;

    let toks = Seq::<Seq<char>>::empty();
    assert forall|v: Seq<char>| kind_ms(toks, k).count(v) == 0 by {
        assert(toks.to_multiset().count(v) <= toks.to_multiset().len());
    }
    assert(kind_ms(toks, k) =~= Multiset::<Seq<char>>::empty());
}

/// Extending the processed prefix by one token inserts it into exactly its
/// own category's multiset and leaves every other category unchanged.
proof fn lemma_kind_ms_push(toks: Seq<Seq<char>>, i: int, k: TokenKind)
    requires
        0 <= i < toks.len(),
    ensures
        kind_of(toks[i]) == k ==> kind_ms(toks.take(i + 1), k) == kind_ms(toks.take(i), k).insert(
            toks[i],
        ),
        kind_of(toks[i]) != k ==> kind_ms(toks.take(i + 1), k) == kind_ms(toks.take(i), k),
{
    broadcast use vstd::seq_lib::group_to_multiset_ensures;
    broadcast use vstd::multiset::group_multiset_axioms;
    broadcast use vstd::multiset::group_multiset_properties;

    let t = toks[i];
    let f = kind_pred(k);
    let m0 = toks.take(i).to_multiset();
    assert(toks.take(i + 1) =~= toks.take(i).push(t));
    assert(toks.take(i + 1).to_multiset() == m0.insert(t));
    if kind_of(t) == k {
        assert forall|v: Seq<char>|
            m0.insert(t).filter(f).count(v) == m0.filter(f).insert(t).count(v) by {
            assert(f(v) == (kind_of(v) == k));
            if v == t {
                assert(m0.insert(t).count(v) == m0.count(v) + 1);
            } else {
                assert(m0.insert(t).count(v) == m0.count(v));
            }
        }
        assert(m0.insert(t).filter(f) =~= m0.filter(f).insert(t));
    } else {
        assert forall|v: Seq<char>| m0.insert(t).filter(f).count(v) == m0.filter(f).count(v) by {
            assert(f(v) == (kind_of(v) == k));
            if v == t {
                assert(!f(v));
            } else {
                assert(m0.insert(t).count(v) == m0.count(v));
            }
        }
        assert(m0.insert(t).filter(f) =~= m0.filter(f));
    }
}

/// A category is never more frequent in a prefix than in the whole list.
proof fn lemma_kind_count_prefix(toks: Seq<Seq<char>>, i: int, k: TokenKind)
    requires
        0 <= i <= toks.len(),
    ensures
        kind_count(toks.take(i), k) <= kind_count(toks, k),
{
    broadcast use vstd::seq_lib::group_to_multiset_ensures;
    broadcast use vstd::multiset::group_multiset_axioms;

    let f = kind_pred(k);
    let a = toks.take(i);
    let b = toks.skip(i);
    assert(toks =~= a + b);
    vstd::seq_lib::lemma_multiset_commutative(a, b);
    let ma = a.to_multiset();
    let mb = b.to_multiset();
    assert forall|v: Seq<char>|
        ma.add(mb).filter(f).count(v) == ma.filter(f).add(mb.filter(f)).count(v) by {}
    assert(ma.add(mb).filter(f) =~= ma.filter(f).add(mb.filter(f)));
    assert(kind_ms(toks, k) == kind_ms(a, k).add(kind_ms(b, k)));
}

/// In a multiset with a single element, that element is what `choose` picks.
proof fn lemma_ms_choose_unique(m: Multiset<Seq<char>>, t: Seq<char>)
    requires
        m.len() == 1,
        m.count(t) > 0,
    ensures
        m.choose() == t,
{
    broadcast use vstd::multiset::group_multiset_axioms;

    let c = m.choose();
    assert(m.count(c) > 0);
    if c != t {
        assert forall|v: Seq<char>|
            Multiset::<Seq<char>>::singleton(t).count(v) <= m.count(v) by {}
        assert(Multiset::<Seq<char>>::singleton(t).subset_of(m));
        assert(m.remove(t).len() == 0);
        assert(m.remove(t).count(c) == m.count(c));
        assert(m.remove(t).count(c) <= m.remove(t).len());
        assert(false);
    }
}

/// Two token lists with the same multiset of tokens decode identically: the
/// grammar reads the tokens as a collection, never through their order.
pub proof fn lemma_token_order_irrelevant(toks1: Seq<Seq<char>>, toks2: Seq<Seq<char>>)
    requires
        toks1.to_multiset() == toks2.to_multiset(),
    ensures
        spec_parse_tokens(toks1) == spec_parse_tokens(toks2),
{
    assert forall|k: TokenKind| kind_ms(toks1, k) == kind_ms(toks2, k) by {}
}

/// Appending a trailing dot to a hostname never changes how it decodes.
pub proof fn lemma_parse_trailing_dot(s: Seq<char>)
    ensures
        spec_parse(s.push('.')) == spec_parse(s),
{
    assert(s.push('.').len() == s.len() + 1);
    assert(s.push('.')[s.len() as int] == '.');
    assert(s.push('.').drop_last() =~= s);
    assert(trim_dots(s.push('.')) == trim_dots(s));
}

// ---------------------------------------------------------------------------
// Executable parser
// ---------------------------------------------------------------------------

/// True when `p` is a prefix of `s`, character for character.
fn str_has_prefix(s: &str, p: &str) -> (r: bool)
    ensures
        r == has_prefix(s@, p@),
{
    let n = p.unicode_len();
    let sn = s.unicode_len();
    if sn < n {
        return false;
    }
    let mut i: usize = 0;
    while i < n
        invariant
            i <= n,
            n == p@.len(),
            sn == s@.len(),
            n <= sn,
            forall|j: int| 0 <= j < i ==> s@[j] == p@[j],
        decreases n - i,
    {
        if s.get_char(i) != p.get_char(i) {
            proof {
                if s@.take(n as int) == p@ {
                    assert(s@.take(n as int)[i as int] == s@[i as int]);
                }
            }
            return false;
        }
        i += 1;
    }
    proof {
        assert(s@.take(n as int) =~= p@);
    }
    true
}

/// True when `p` is a suffix of `s`, character for character.
fn str_has_suffix(s: &str, p: &str) -> (r: bool)
    ensures
        r == has_suffix(s@, p@),
{
    let n = p.unicode_len();
    let sn = s.unicode_len();
    if sn < n {
        return false;
    }
    let off = sn - n;
    let mut i: usize = 0;
    while i < n
        invariant
            i <= n,
            n == p@.len(),
            sn == s@.len(),
            n <= sn,
            off == sn - n,
            forall|j: int| 0 <= j < i ==> s@[off + j] == p@[j],
        decreases n - i,
    {
        if s.get_char(off + i) != p.get_char(i) {
            proof {
                if s@.skip(off as int) == p@ {
                    assert(s@.skip(off as int)[i as int] == s@[off + i]);
                }
            }
            return false;
        }
        i += 1;
    }
    proof {
        assert(s@.skip(off as int) =~= p@);
    }
    true
}

/// The decoded form of one token.
enum TokenData {
    Container(String),
    Namespace(String),
    Context(String),
    TargetTok(Target),
    Invalid,
}

impl View for TokenData {
    type V = TokenView;

    closed spec fn view(&self) -> TokenView {
        match self {
            TokenData::Container(v) => TokenView::Container(v@),
            TokenData::Namespace(v) => TokenView::Namespace(v@),
            TokenData::Context(v) => TokenView::Context(v@),
            TokenData::TargetTok(t) => TokenView::TargetTok(t@),
            TokenData::Invalid => TokenView::Invalid,
        }
    }
}

/// Decode one token.
fn classify(tok: &str) -> (r: TokenData)
    ensures
        r@ == classify_token(tok@),
{
    let n = tok.unicode_len();
    proof {
        reveal_strlit("container--");
        reveal_strlit("namespace--");
        reveal_strlit("context--");
        reveal_strlit("pod--");
        reveal_strlit("deployment--");
        reveal_strlit("job--");
        assert(("container--")@ =~= spec_container_prefix());
        assert(("namespace--")@ =~= spec_namespace_prefix());
        assert(("context--")@ =~= spec_context_prefix());
        assert(("pod--")@ =~= spec_pod_prefix());
        assert(("deployment--")@ =~= spec_deployment_prefix());
        assert(("job--")@ =~= spec_job_prefix());
    }
    if str_has_prefix(tok, "container--") {
        if n > 11 {
            let v = tok.substring_char(11, n).to_owned();
            proof {
                assert(v@ =~= tok@.skip(11));
            }
            TokenData::Container(v)
        } else {
            TokenData::Invalid
        }
    } else if str_has_prefix(tok, "namespace--") {
        if n > 11 {
            let v = tok.substring_char(11, n).to_owned();
            proof {
                assert(v@ =~= tok@.skip(11));
            }
            TokenData::Namespace(v)
        } else {
            TokenData::Invalid
        }
    } else if str_has_prefix(tok, "context--") {
        if n > 9 {
            let v = tok.substring_char(9, n).to_owned();
            proof {
                assert(v@ =~= tok@.skip(9));
            }
            TokenData::Context(v)
        } else {
            TokenData::Invalid
        }
    } else if str_has_prefix(tok, "pod--") {
        if n > 5 {
            let v = tok.substring_char(5, n).to_owned();
            proof {
                assert(v@ =~= tok@.skip(5));
            }
            TokenData::TargetTok(Target::Pod(v))
        } else {
            TokenData::Invalid
        }
    } else if str_has_prefix(tok, "deployment--") {
        if n > 12 {
            let v = tok.substring_char(12, n).to_owned();
            proof {
                assert(v@ =~= tok@.skip(12));
            }
            TokenData::TargetTok(Target::Deployment(v))
        } else {
            TokenData::Invalid
        }
    } else if str_has_prefix(tok, "job--") {
        if n > 5 {
            let v = tok.substring_char(5, n).to_owned();
            proof {
                assert(v@ =~= tok@.skip(5));
            }
            TokenData::TargetTok(Target::Job(v))
        } else {
            TokenData::Invalid
        }
    } else if n == 0 {
        TokenData::Invalid
    } else {
        TokenData::TargetTok(Target::Pod(tok.to_owned()))
    }
}

/// Decode a token list: exactly one target, each qualifier at most once.
fn parse_tokens_exec(parts: &Vec<String>) -> (r: Result<HostSpec, HostSpecError>)
    ensures
        match r {
            Result::Ok(h) => spec_parse_tokens(parts.deep_view()) == Result::<
                HostSpecView,
                HostSpecError,
            >::Ok(h@),
            Result::Err(e) => spec_parse_tokens(parts.deep_view()) == Result::<
                HostSpecView,
                HostSpecError,
            >::Err(e),
        },
{
    let ghost toks = parts.deep_view();
    let mut container: Option<String> = Option::None;
    let mut namespace: Option<String> = Option::None;
    let mut context: Option<String> = Option::None;
    let mut target: Option<Target> = Option::None;
    let mut i: usize = 0;
    proof {
        assert(toks.take(0) =~= Seq::<Seq<char>>::empty());
        lemma_kind_ms_empty(TokenKind::ContainerKind);
        lemma_kind_ms_empty(TokenKind::NamespaceKind);
        lemma_kind_ms_empty(TokenKind::ContextKind);
        lemma_kind_ms_empty(TokenKind::TargetKind);
        lemma_kind_ms_empty(TokenKind::InvalidKind);
    }
    while i < parts.len()
        invariant
            i <= parts.len(),
            toks == parts.deep_view(),
            toks.len() == parts.len(),
            kind_count(toks.take(i as int), TokenKind::InvalidKind) == 0,
            container is None ==> kind_count(toks.take(i as int), TokenKind::ContainerKind) == 0,
            container matches Some(v) ==> kind_count(toks.take(i as int), TokenKind::ContainerKind)
                == 1 && token_value(the_token(toks.take(i as int), TokenKind::ContainerKind))
                == v@,
            namespace is None ==> kind_count(toks.take(i as int), TokenKind::NamespaceKind) == 0,
            namespace matches Some(v) ==> kind_count(toks.take(i as int), TokenKind::NamespaceKind)
                == 1 && token_value(the_token(toks.take(i as int), TokenKind::NamespaceKind))
                == v@,
            context is None ==> kind_count(toks.take(i as int), TokenKind::ContextKind) == 0,
            context matches Some(v) ==> kind_count(toks.take(i as int), TokenKind::ContextKind)
                == 1 && token_value(the_token(toks.take(i as int), TokenKind::ContextKind)) == v@,
            target is None ==> kind_count(toks.take(i as int), TokenKind::TargetKind) == 0,
            target matches Some(t) ==> kind_count(toks.take(i as int), TokenKind::TargetKind) == 1
                && token_target(the_token(toks.take(i as int), TokenKind::TargetKind)) == t@,
        decreases parts.len() - i,
    {
        proof {
            assert(parts.deep_view()[i as int] == parts@[i as int]@);
            lemma_kind_ms_push(toks, i as int, TokenKind::ContainerKind);
            lemma_kind_ms_push(toks, i as int, TokenKind::NamespaceKind);
            lemma_kind_ms_push(toks, i as int, TokenKind::ContextKind);
            lemma_kind_ms_push(toks, i as int, TokenKind::TargetKind);
            lemma_kind_ms_push(toks, i as int, TokenKind::InvalidKind);
            broadcast use vstd::multiset::group_multiset_properties;
            broadcast use vstd::multiset::group_multiset_axioms;

        }
        let data = classify(parts[i].as_str());
        match data {
            TokenData::Container(v) => {
                if container.is_some() {
                    proof {
                        lemma_kind_count_prefix(toks, i as int + 1, TokenKind::ContainerKind);
                    }
                    return Result::Err(HostSpecError::InvalidFormat);
                }
                proof {
                    let m = kind_ms(toks.take(i as int + 1), TokenKind::ContainerKind);
                    assert(m.count(toks[i as int]) > 0);
                    lemma_ms_choose_unique(m, toks[i as int]);
                }
                container = Option::Some(v);
            },
            TokenData::Namespace(v) => {
                if namespace.is_some() {
                    proof {
                        lemma_kind_count_prefix(toks, i as int + 1, TokenKind::NamespaceKind);
                    }
                    return Result::Err(HostSpecError::InvalidFormat);
                }
                proof {
                    let m = kind_ms(toks.take(i as int + 1), TokenKind::NamespaceKind);
                    assert(m.count(toks[i as int]) > 0);
                    lemma_ms_choose_unique(m, toks[i as int]);
                }
                namespace = Option::Some(v);
            },
            TokenData::Context(v) => {
                if context.is_some() {
                    proof {
                        lemma_kind_count_prefix(toks, i as int + 1, TokenKind::ContextKind);
                    }
                    return Result::Err(HostSpecError::InvalidFormat);
                }
                proof {
                    let m = kind_ms(toks.take(i as int + 1), TokenKind::ContextKind);
                    assert(m.count(toks[i as int]) > 0);
                    lemma_ms_choose_unique(m, toks[i as int]);
                }
                context = Option::Some(v);
            },
            TokenData::TargetTok(t) => {
                if target.is_some() {
                    proof {
                        lemma_kind_count_prefix(toks, i as int + 1, TokenKind::TargetKind);
                    }
                    return Result::Err(HostSpecError::InvalidFormat);
                }
                proof {
                    let m = kind_ms(toks.take(i as int + 1), TokenKind::TargetKind);
                    assert(m.count(toks[i as int]) > 0);
                    lemma_ms_choose_unique(m, toks[i as int]);
                }
                target = Option::Some(t);
            },
            TokenData::Invalid => {
                proof {
                    lemma_kind_count_prefix(toks, i as int + 1, TokenKind::InvalidKind);
                }
                return Result::Err(HostSpecError::InvalidFormat);
            },
        }
        i += 1;
    }
    proof {
        assert(toks.take(toks.len() as int) =~= toks);
    }
    match target {
        Option::None => Result::Err(HostSpecError::InvalidFormat),
        Option::Some(t) => Result::Ok(
            HostSpec { target: t, namespace, context, container },
        ),
    }
}

/// Decode a virtual hostname.
///
/// Returns the decoded `HostSpec` exactly when the hostname, after trimming
/// trailing dots, ends in `.sshpod` and its prefix tokens name exactly one
/// target with optional, unrepeated, non-empty qualifiers; otherwise the
/// matching error.
pub fn parse(host: &str) -> (r: Result<HostSpec, HostSpecError>)
    ensures
        match r {
            Result::Ok(h) => spec_parse(host@) == Result::<HostSpecView, HostSpecError>::Ok(h@),
            Result::Err(e) => spec_parse(host@) == Result::<HostSpecView, HostSpecError>::Err(e),
        },
{
    let n = host.unicode_len();
    let mut end = n;
    proof {
        assert(host@.take(n as int) =~= host@);
    }
    while end > 0 && host.get_char(end - 1) == '.'
        invariant
            end <= n,
            n == host@.len(),
            trim_dots(host@) == trim_dots(host@.take(end as int)),
        decreases end,
    {
        proof {
            let pre = host@.take(end as int);
            assert(pre[pre.len() - 1] == host@[end - 1]);
            assert(pre.drop_last() =~= host@.take(end as int - 1));
        }
        end -= 1;
    }
    proof {
        let pre = host@.take(end as int);
        if end > 0 {
            assert(pre[pre.len() - 1] == host@[end - 1]);
        }
        assert(trim_dots(pre) == pre);
    }
    let trimmed = host.substring_char(0, end);
    proof {
        assert(trimmed@ =~= trim_dots(host@));
        reveal_strlit(".sshpod");
        assert((".sshpod")@ =~= spec_suffix());
    }
    if !str_has_suffix(trimmed, ".sshpod") {
        return Result::Err(HostSpecError::MissingSuffix);
    }
    let prefix = trimmed.substring_char(0, end - 7);
    proof {
        assert(prefix@ =~= trim_dots(host@).take(trim_dots(host@).len() - spec_suffix().len()));
    }
    let parts = crate::strutil::split_on_char(prefix, '.');
    parse_tokens_exec(&parts)
}

} // verus!
