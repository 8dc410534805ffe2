//! Routing compaction for venue_type/provider/bridge metadata.
//!
//! Converts routing edges between an expanded form (venue type by name) and a
//! compact storage form (venue type by code). The conversion round-trips
//! losslessly: an edge that cannot be stored without loss (unknown venue type,
//! or a fee beyond 16 bits) is left out rather than altered. A bridge venue
//! type can never be laundered into `sdex` or `amm`.
//!
//! A price is carried by its IEEE-754 bit pattern in both forms, so no
//! precision is lost on the way through.

use vstd::prelude::*;
use vstd::string::StringSliceAdditionalSpecFns;

verus! {

/// Venue type code of the Stellar DEX order book.
pub const VENUE_TYPE_SDEX: u8 = 0;

/// Venue type code of an automated market maker pool.
pub const VENUE_TYPE_AMM: u8 = 1;

/// Venue type code of a cross-chain bridge.
pub const VENUE_TYPE_BRIDGE: u8 = 2;

/// The name `sdex`.
pub open spec fn sdex_name() -> Seq<char> {
    seq!['s', 'd', 'e', 'x']
}

/// The name `amm`.
pub open spec fn amm_name() -> Seq<char> {
    seq!['a', 'm', 'm']
}

/// The name `bridge`.
pub open spec fn bridge_name() -> Seq<char> {
    seq!['b', 'r', 'i', 'd', 'g', 'e']
}

/// The code of a venue type name; `None` for a name that is not a venue type.
pub open spec fn venue_code(name: Seq<char>) -> Option<u8> {
    if name == sdex_name() {
        Some(VENUE_TYPE_SDEX)
    } else if name == amm_name() {
        Some(VENUE_TYPE_AMM)
    } else if name == bridge_name() {
        Some(VENUE_TYPE_BRIDGE)
    } else {
        None
    }
}

/// The name of a venue type code; `None` for a code that is not a venue type.
pub open spec fn venue_name(code: u8) -> Option<Seq<char>> {
    if code == VENUE_TYPE_SDEX {
        Some(sdex_name())
    } else if code == VENUE_TYPE_AMM {
        Some(amm_name())
    } else if code == VENUE_TYPE_BRIDGE {
        Some(bridge_name())
    } else {
        None
    }
}

/// Compact edge representation for storage.
#[derive(Debug, Clone, PartialEq)]
pub struct CompactEdge {
    pub from: String,
    pub to: String,
    pub venue_type: u8,
    pub venue_ref: String,
    pub liquidity: i128,
    pub price_bits: u64,
    pub fee_bps: u16,
}

/// Expanded edge representation for routing.
#[derive(Debug, Clone, PartialEq)]
pub struct ExpandedEdge {
    pub from: String,
    pub to: String,
    pub venue_type: String,
    pub venue_ref: String,
    pub liquidity: i128,
    /// The price, as the bit pattern of its `f64` value.
    pub price_bits: u64,
    pub fee_bps: u32,
}

/// What a [`CompactEdge`] holds, as mathematical values.
#[verifier::ext_equal]
pub struct CompactEdgeView {
    pub from: Seq<char>,
    pub to: Seq<char>,
    pub venue_type: u8,
    pub venue_ref: Seq<char>,
    pub liquidity: i128,
    pub price_bits: u64,
    pub fee_bps: u16,
}

/// What an [`ExpandedEdge`] holds, as mathematical values.
#[verifier::ext_equal]
pub struct ExpandedEdgeView {
    pub from: Seq<char>,
    pub to: Seq<char>,
    pub venue_type: Seq<char>,
    pub venue_ref: Seq<char>,
    pub liquidity: i128,
    pub price_bits: u64,
    pub fee_bps: u32,
}

impl View for CompactEdge {
    type V = CompactEdgeView;

    open spec fn view(&self) -> CompactEdgeView {
        CompactEdgeView {
            from: self.from@,
            to: self.to@,
            venue_type: self.venue_type,
            venue_ref: self.venue_ref@,
            liquidity: self.liquidity,
            price_bits: self.price_bits,
            fee_bps: self.fee_bps,
        }
    }
}

impl View for ExpandedEdge {
    type V = ExpandedEdgeView;

    open spec fn view(&self) -> ExpandedEdgeView {
        ExpandedEdgeView {
            from: self.from@,
            to: self.to@,
            venue_type: self.venue_type@,
            venue_ref: self.venue_ref@,
            liquidity: self.liquidity,
            price_bits: self.price_bits,
            fee_bps: self.fee_bps,
        }
    }
}

/// The views of a sequence of compact edges.
pub open spec fn compact_views(s: Seq<CompactEdge>) -> Seq<CompactEdgeView> {
    s.map_values(|c: CompactEdge| c@)
}

/// The views of a sequence of expanded edges.
pub open spec fn expanded_views(s: Seq<ExpandedEdge>) -> Seq<ExpandedEdgeView> {
    s.map_values(|e: ExpandedEdge| e@)
}

/// The compact form of an expanded edge: `None` when its venue type is not
/// known or its fee does not fit the 16 bits of the compact form.
pub open spec fn compact_edge(e: ExpandedEdgeView) -> Option<CompactEdgeView> {
    match venue_code(e.venue_type) {
        Some(code) => if e.fee_bps > u16::MAX {
            None
        } else {
            Some(
            CompactEdgeView {
                from: e.from,
                to: e.to,
                venue_type: code,
                venue_ref: e.venue_ref,
                liquidity: e.liquidity,
                price_bits: e.price_bits,
                fee_bps: e.fee_bps as u16,
            },
        )
        },
        None => None,
    }
}

/// The expanded form of a compact edge: `None` when its venue type code is
/// not known.
pub open spec fn expand_edge(c: CompactEdgeView) -> Option<ExpandedEdgeView> {
    match venue_name(c.venue_type) {
        Some(name) => Some(
            ExpandedEdgeView {
                from: c.from,
                to: c.to,
                venue_type: name,
                venue_ref: c.venue_ref,
                liquidity: c.liquidity,
                price_bits: c.price_bits,
                fee_bps: c.fee_bps as u32,
            },
        ),
        None => None,
    }
}

/// The compact forms of the edges of `s` that have one, in order.
pub open spec fn compact_edges(s: Seq<ExpandedEdgeView>) -> Seq<CompactEdgeView>
    decreases s.len(),
{
    if s.len() == 0 {
        Seq::empty()
    } else {
        let prefix = compact_edges(s.drop_last());
        match compact_edge(s.last()) {
            Some(c) => prefix.push(c),
            None => prefix,
        }
    }
}

/// The expanded forms of the edges of `s` whose venue type code is known, in
/// order.
pub open spec fn expand_edges(s: Seq<CompactEdgeView>) -> Seq<ExpandedEdgeView>
    decreases s.len(),
{
    if s.len() == 0 {
        Seq::empty()
    } else {
        let prefix = expand_edges(s.drop_last());
        match expand_edge(s.last()) {
            Some(e) => prefix.push(e),
            None => prefix,
        }
    }
}

/// Whether two strings hold the same characters.
fn str_equal(a: &str, b: &str) -> (res: bool)
    ensures
        res == (a@ == b@),
{
    let x = a.as_bytes();
    let y = b.as_bytes();
    if x.len() != y.len() {
        return false;
    }
    let n = x.len();
    let mut i: usize = 0;
    while i < n
        invariant
            n == x@.len(),
            n == y@.len(),
            x@ == a.spec_bytes(),
            y@ == b.spec_bytes(),
            i <= n,
            forall|j: int| 0 <= j < i ==> x@[j] == y@[j],
        decreases n - i,
    {
        if x[i] != y[i] {
            return false;
        }
        i = i + 1;
    }
    proof {
        assert(x@ =~= y@);
        vstd::utf8::encode_utf8_decode_utf8(a@);
        vstd::utf8::encode_utf8_decode_utf8(b@);
    }
    true
}

/// Convert venue type string to compact u8.
pub fn venue_type_to_u8(venue_type: &str) -> (res: Option<u8>)
    ensures
        res == venue_code(venue_type@),
{
    proof {
        reveal_strlit("sdex");
        reveal_strlit("amm");
        reveal_strlit("bridge");
        assert("sdex"@ =~= sdex_name());
        assert("amm"@ =~= amm_name());
        assert("bridge"@ =~= bridge_name());
    }
    if str_equal(venue_type, "sdex") {
        Some(VENUE_TYPE_SDEX)
    } else if str_equal(venue_type, "amm") {
        Some(VENUE_TYPE_AMM)
    } else if str_equal(venue_type, "bridge") {
        Some(VENUE_TYPE_BRIDGE)
    } else {
        None
    }
}

/// Convert compact u8 to venue type string.
pub fn u8_to_venue_type(venue_type: u8) -> (res: Option<&'static str>)
    ensures
        match res {
            Some(name) => venue_name(venue_type) == Some(name@),
            None => venue_name(venue_type) is None,
        },
{
    proof {
        reveal_strlit("sdex");
        reveal_strlit("amm");
        reveal_strlit("bridge");
        assert("sdex"@ =~= sdex_name());
        assert("amm"@ =~= amm_name());
        assert("bridge"@ =~= bridge_name());
    }
    if venue_type == VENUE_TYPE_SDEX {
        Some("sdex")
    } else if venue_type == VENUE_TYPE_AMM {
        Some("amm")
    } else if venue_type == VENUE_TYPE_BRIDGE {
        Some("bridge")
    } else {
        None
    }
}

/// Compact an expanded edge into storage format.
///
/// Edges whose venue type is not known, or whose fee does not fit the 16 bits
/// of the compact form, are left out; the others keep their order, and every
/// field of a kept edge is carried over unchanged.
pub fn from_edges(edges: &[ExpandedEdge]) -> (res: Vec<CompactEdge>)
    ensures
        compact_views(res@) == compact_edges(expanded_views(edges@)),
{
    let mut out: Vec<CompactEdge> = Vec::new();
    let n = edges.len();
    let mut i: usize = 0;
    while i < n
        invariant
            n == edges@.len(),
            i <= n,
            compact_views(out@) == compact_edges(expanded_views(edges@.subrange(0, i as int))),
        decreases n - i,
    {
        let edge = &edges[i];
        proof {
            assert(expanded_views(edges@.subrange(0, i + 1)).drop_last()
                =~= expanded_views(edges@.subrange(0, i as int)));
            assert(expanded_views(edges@.subrange(0, i + 1)).last() == edge@);
        }
        let ghost before = out@;
        match venue_type_to_u8(edge.venue_type.as_str()) {
            Some(code) if edge.fee_bps <= u16::MAX as u32 => {
                let compact = CompactEdge {
                    from: edge.from.clone(),
                    to: edge.to.clone(),
                    venue_type: code,
                    venue_ref: edge.venue_ref.clone(),
                    liquidity: edge.liquidity,
                    price_bits: edge.price_bits,
                    fee_bps: edge.fee_bps as u16,
                };
                out.push(compact);
                proof {
                    assert(compact_views(out@) =~= compact_views(before).push(compact@));
                }
            },
            _ => {},
        }
        i = i + 1;
    }
    proof {
        assert(edges@.subrange(0, n as int) =~= edges@);
    }
    out
}

/// Expand a compact edge into routing format.
///
/// Edges whose venue type code is not known are dropped; the others keep
/// their order.
pub fn to_edges(edges: &[CompactEdge]) -> (res: Vec<ExpandedEdge>)
    ensures
        expanded_views(res@) == expand_edges(compact_views(edges@)),
{
    let mut out: Vec<ExpandedEdge> = Vec::new();
    let n = edges.len();
    let mut i: usize = 0;
    while i < n
        invariant
            n == edges@.len(),
            i <= n,
            expanded_views(out@) == expand_edges(compact_views(edges@.subrange(0, i as int))),
        decreases n - i,
    {
        let edge = &edges[i];
        proof {
            assert(compact_views(edges@.subrange(0, i + 1)).drop_last()
                =~= compact_views(edges@.subrange(0, i as int)));
            assert(compact_views(edges@.subrange(0, i + 1)).last() == edge@);
        }
        let ghost before = out@;
        match u8_to_venue_type(edge.venue_type) {
            Some(name) => {
                let expanded = ExpandedEdge {
                    from: edge.from.clone(),
                    to: edge.to.clone(),
                    venue_type: name.to_owned(),
                    venue_ref: edge.venue_ref.clone(),
                    liquidity: edge.liquidity,
                    price_bits: edge.price_bits,
                    fee_bps: edge.fee_bps as u32,
                };
                out.push(expanded);
                proof {
                    assert(expanded_views(out@) =~= expanded_views(before).push(expanded@));
                }
            },
            None => {},
        }
        i = i + 1;
    }
    proof {
        assert(edges@.subrange(0, n as int) =~= edges@);
    }
    out
}

/// The three venue type names differ from each other.
proof fn lemma_venue_names_distinct()
    ensures
        sdex_name() != amm_name(),
        sdex_name() != bridge_name(),
        amm_name() != bridge_name(),
{
    assert(sdex_name().len() == 4 && amm_name().len() == 3 && bridge_name().len() == 6);
}

/// Every venue type name has a code, and that code names it again; no two
/// names share a code.
pub proof fn lemma_venue_name_code_round_trip(name: Seq<char>)
    ensures
        venue_code(name) matches Some(code) ==> venue_name(code) == Some(name),
        venue_code(name) is Some <==> (name == sdex_name() || name == amm_name() || name
            == bridge_name()),
{
}

/// Every venue type code has a name, and that name has the code again; no
/// two codes share a name.
pub proof fn lemma_venue_code_name_round_trip(code: u8)
    ensures
        venue_name(code) matches Some(name) ==> venue_code(name) == Some(code),
        venue_name(code) is Some <==> code <= VENUE_TYPE_BRIDGE,
{
    lemma_venue_names_distinct();
}

/// A bridge venue type cannot be laundered into `sdex` or `amm`: an expanded
/// edge compacts to the bridge code exactly when its venue type is `bridge`,
/// and the bridge code expands to `bridge`, which is neither `sdex` nor `amm`.
pub proof fn lemma_bridge_not_laundered(e: ExpandedEdgeView, c: CompactEdgeView)
    ensures
        compact_edge(e) matches Some(ce) ==> (ce.venue_type == VENUE_TYPE_BRIDGE <==> e.venue_type
            == bridge_name()),
        c.venue_type == VENUE_TYPE_BRIDGE ==> {
            &&& expand_edge(c) matches Some(ec)
            &&& ec.venue_type == bridge_name()
            &&& ec.venue_type != sdex_name()
            &&& ec.venue_type != amm_name()
        },
{
    lemma_venue_names_distinct();
}

/// Whether an expanded edge has a compact form: its venue type is known and
/// its fee fits 16 bits.
pub open spec fn is_compactable(e: ExpandedEdgeView) -> bool {
    compact_edge(e) is Some
}

/// Whether a compact edge has an expanded form: its venue type code is known.
pub open spec fn is_expandable(c: CompactEdgeView) -> bool {
    expand_edge(c) is Some
}

/// Whether every edge of `es` has a compact form.
pub open spec fn all_compactable(es: Seq<ExpandedEdgeView>) -> bool {
    forall|i: int| 0 <= i < es.len() ==> #[trigger] is_compactable(es[i])
}

/// Whether every edge of `cs` has a known venue type code.
pub open spec fn all_expandable(cs: Seq<CompactEdgeView>) -> bool {
    forall|i: int| 0 <= i < cs.len() ==> (#[trigger] cs[i].venue_type) <= VENUE_TYPE_BRIDGE
}

/// Round trip from the expanded form: compacting edges, then expanding them,
/// gives back exactly the edges that have a compact form, unchanged and in the
/// same order; where every edge has one, it gives back the very same edges.
pub proof fn lemma_expanded_round_trip(es: Seq<ExpandedEdgeView>)
    ensures
        expand_edges(compact_edges(es)) == es.filter(|e: ExpandedEdgeView| is_compactable(e)),
        all_compactable(es) ==> expand_edges(compact_edges(es)) == es,
    decreases es.len(),
{
    let p = |e: ExpandedEdgeView| is_compactable(e);
    if es.len() > 0 {
        let init = es.drop_last();
        let last = es.last();
        lemma_expanded_round_trip(init);
        if all_compactable(es) {
            assert forall|i: int| 0 <= i < init.len() implies #[trigger] is_compactable(init[i]) by {
                assert(init[i] == es[i]);
            }
            assert(is_compactable(es[es.len() - 1]));
        }
        lemma_venue_name_code_round_trip(last.venue_type);
        let cs = compact_edges(es);
        if is_compactable(last) {
            let c = compact_edge(last).unwrap();
            assert(cs == compact_edges(init).push(c));
            assert(cs.drop_last() =~= compact_edges(init));
            assert(cs.last() == c);
            assert(expand_edge(c) == Some(last));
        } else {
            assert(cs == compact_edges(init));
        }
        reveal_with_fuel(Seq::<ExpandedEdgeView>::filter, 1);
        assert(es.filter(p) == if p(last) { init.filter(p).push(last) } else { init.filter(p) });
        assert(es =~= init.push(last));
    }
}

/// Round trip from the compact form: expanding edges, then compacting them,
/// gives back exactly the edges whose venue type code is known, unchanged and
/// in the same order; where every code is known, it gives back the very same
/// edges.
pub proof fn lemma_compact_round_trip(cs: Seq<CompactEdgeView>)
    ensures
        compact_edges(expand_edges(cs)) == cs.filter(|c: CompactEdgeView| is_expandable(c)),
        all_expandable(cs) ==> compact_edges(expand_edges(cs)) == cs,
    decreases cs.len(),
{
    let p = |c: CompactEdgeView| is_expandable(c);
    if cs.len() > 0 {
        let init = cs.drop_last();
        let last = cs.last();
        lemma_compact_round_trip(init);
        if all_expandable(cs) {
            assert forall|i: int| 0 <= i < init.len() implies (#[trigger] init[i].venue_type)
                <= VENUE_TYPE_BRIDGE by {
                assert(init[i] == cs[i]);
            }
            assert(cs[cs.len() - 1].venue_type <= VENUE_TYPE_BRIDGE);
        }
        lemma_venue_code_name_round_trip(last.venue_type);
        let es = expand_edges(cs);
        if is_expandable(last) {
            let e = expand_edge(last).unwrap();
            assert(es == expand_edges(init).push(e));
            assert(es.drop_last() =~= expand_edges(init));
            assert(es.last() == e);
            assert(compact_edge(e) == Some(last));
        } else {
            assert(es == expand_edges(init));
        }
        reveal_with_fuel(Seq::<CompactEdgeView>::filter, 1);
        assert(cs.filter(p) == if p(last) { cs.drop_last().filter(p).push(last) } else { cs.drop_last().filter(p) });
        assert(cs =~= init.push(last));
    }
}

/// Every compact edge that compaction produces has a known venue type code.
proof fn lemma_compacted_are_expandable(es: Seq<ExpandedEdgeView>)
    ensures
        all_expandable(compact_edges(es)),
    decreases es.len(),
{
    if es.len() > 0 {
        lemma_compacted_are_expandable(es.drop_last());
        let prefix = compact_edges(es.drop_last());
        let cs = compact_edges(es);
        assert forall|i: int| 0 <= i < cs.len() implies (#[trigger] cs[i].venue_type)
            <= VENUE_TYPE_BRIDGE by {
            if i < prefix.len() {
                assert(cs[i] == prefix[i]);
            }
        }
    }
}

/// Compaction is stable: storing edges, loading them back and storing them
/// again gives the same compact edges as storing them once, whatever the
/// edges are.
pub proof fn lemma_compaction_stable(es: Seq<ExpandedEdgeView>)
    ensures
        compact_edges(expand_edges(compact_edges(es))) == compact_edges(es),
{
    lemma_compacted_are_expandable(es);
    lemma_compact_round_trip(compact_edges(es));
}

/// Whether `c` holds exactly what `e` holds, with the venue type given by its
/// code instead of its name: `sdex` as [`VENUE_TYPE_SDEX`], `amm` as
/// [`VENUE_TYPE_AMM`], `bridge` as [`VENUE_TYPE_BRIDGE`].
pub open spec fn same_edge(e: ExpandedEdgeView, c: CompactEdgeView) -> bool {
    &&& c.from == e.from
    &&& c.to == e.to
    &&& c.venue_ref == e.venue_ref
    &&& c.liquidity == e.liquidity
    &&& c.price_bits == e.price_bits
    &&& c.fee_bps as u32 == e.fee_bps
    &&& {
        ||| e.venue_type == sdex_name() && c.venue_type == VENUE_TYPE_SDEX
        ||| e.venue_type == amm_name() && c.venue_type == VENUE_TYPE_AMM
        ||| e.venue_type == bridge_name() && c.venue_type == VENUE_TYPE_BRIDGE
    }
}

/// Whether an expanded edge can be stored without loss: its venue type is one
/// of `sdex`, `amm`, `bridge`, and its fee fits 16 bits.
pub open spec fn storable(e: ExpandedEdgeView) -> bool {
    &&& (e.venue_type == sdex_name() || e.venue_type == amm_name() || e.venue_type
        == bridge_name())
    &&& e.fee_bps <= u16::MAX
}

/// One edge: an expanded edge has a compact form exactly when it is storable,
/// and that form holds the same edge.
pub proof fn lemma_compact_edge_same(e: ExpandedEdgeView)
    ensures
        compact_edge(e) is Some <==> storable(e),
        compact_edge(e) matches Some(c) ==> same_edge(e, c),
{
    lemma_venue_names_distinct();
}

/// One edge: a compact edge has an expanded form exactly when its code is
/// one of the three venue type codes, and that form holds the same edge.
pub proof fn lemma_expand_edge_same(c: CompactEdgeView)
    ensures
        expand_edge(c) is Some <==> c.venue_type <= VENUE_TYPE_BRIDGE,
        expand_edge(c) matches Some(e) ==> same_edge(e, c),
{
    lemma_venue_names_distinct();
}

/// What compaction gives: each compact edge holds the same edge as one of the
/// inputs (`idx` gives which), the inputs they come from are in their input
/// order with none used twice, and every storable input is among them.
pub proof fn lemma_compacted_edges_are_the_storable_inputs(es: Seq<ExpandedEdgeView>) -> (idx: Seq<
    int,
>)
    ensures
        idx.len() == compact_edges(es).len(),
        forall|k: int|
            0 <= k < idx.len() ==> 0 <= #[trigger] idx[k] < es.len() && same_edge(
                es[idx[k]],
                compact_edges(es)[k],
            ),
        forall|k: int, l: int| 0 <= k < l < idx.len() ==> idx[k] < idx[l],
        forall|j: int|
            0 <= j < es.len() && storable(#[trigger] es[j]) ==> exists|k: int|
                0 <= k < idx.len() && idx[k] == j,
    decreases es.len(),
{
    if es.len() == 0 {
        Seq::empty()
    } else {
        let init = es.drop_last();
        let last = es.last();
        let n = es.len() - 1;
        let prev = lemma_compacted_edges_are_the_storable_inputs(init);
        lemma_compact_edge_same(last);
        let cs = compact_edges(es);
        let idx = if compact_edge(last) is Some {
            prev.push(n)
        } else {
            prev
        };
        assert forall|k: int| 0 <= k < idx.len() implies 0 <= #[trigger] idx[k] < es.len()
            && same_edge(es[idx[k]], cs[k]) by {
            if k < prev.len() {
                assert(idx[k] == prev[k]);
                assert(cs[k] == compact_edges(init)[k]);
                assert(es[prev[k]] == init[prev[k]]);
            }
        }
        assert forall|j: int| 0 <= j < es.len() && storable(#[trigger] es[j]) implies exists|k: int|
            0 <= k < idx.len() && idx[k] == j by {
            if j < n {
                assert(init[j] == es[j]);
                assert(storable(init[j]));
                let k = choose|k: int| 0 <= k < prev.len() && prev[k] == j;
                assert(idx[k] == j);
            } else {
                assert(idx[idx.len() - 1] == j);
            }
        }
        idx
    }
}

/// What expansion gives: each expanded edge holds the same edge as one of the
/// inputs (`idx` gives which), the inputs they come from are in their input
/// order with none used twice, and every input with a known venue type code
/// is among them.
pub proof fn lemma_expanded_edges_are_the_known_inputs(cs: Seq<CompactEdgeView>) -> (idx: Seq<
    int,
>)
    ensures
        idx.len() == expand_edges(cs).len(),
        forall|k: int|
            0 <= k < idx.len() ==> 0 <= #[trigger] idx[k] < cs.len() && same_edge(
                expand_edges(cs)[k],
                cs[idx[k]],
            ),
        forall|k: int, l: int| 0 <= k < l < idx.len() ==> idx[k] < idx[l],
        forall|j: int|
            0 <= j < cs.len() && (#[trigger] cs[j]).venue_type <= VENUE_TYPE_BRIDGE ==> exists|
                k: int,
            | 0 <= k < idx.len() && idx[k] == j,
    decreases cs.len(),
{
    if cs.len() == 0 {
        Seq::empty()
    } else {
        let init = cs.drop_last();
        let last = cs.last();
        let n = cs.len() - 1;
        let prev = lemma_expanded_edges_are_the_known_inputs(init);
        lemma_expand_edge_same(last);
        let es = expand_edges(cs);
        let idx = if expand_edge(last) is Some {
            prev.push(n)
        } else {
            prev
        };
        assert forall|k: int| 0 <= k < idx.len() implies 0 <= #[trigger] idx[k] < cs.len()
            && same_edge(es[k], cs[idx[k]]) by {
            if k < prev.len() {
                assert(idx[k] == prev[k]);
                assert(es[k] == expand_edges(init)[k]);
                assert(cs[prev[k]] == init[prev[k]]);
            }
        }
        assert forall|j: int|
            0 <= j < cs.len() && (#[trigger] cs[j]).venue_type <= VENUE_TYPE_BRIDGE implies exists|
            k: int,
        | 0 <= k < idx.len() && idx[k] == j by {
            if j < n {
                assert(init[j] == cs[j]);
                let k = choose|k: int| 0 <= k < prev.len() && prev[k] == j;
                assert(idx[k] == j);
            } else {
                assert(idx[idx.len() - 1] == j);
            }
        }
        idx
    }
}

/// The venue type names and their codes: `sdex` is 0, `amm` is 1, `bridge`
/// is 2; no other name has a code and no other code has a name.
pub proof fn lemma_venue_codes(name: Seq<char>, code: u8)
    ensures
        venue_code(seq!['s', 'd', 'e', 'x']) == Some(0u8),
        venue_code(seq!['a', 'm', 'm']) == Some(1u8),
        venue_code(seq!['b', 'r', 'i', 'd', 'g', 'e']) == Some(2u8),
        name != seq!['s', 'd', 'e', 'x'] && name != seq!['a', 'm', 'm'] && name != seq![
            'b',
            'r',
            'i',
            'd',
            'g',
            'e',
        ] ==> venue_code(name) is None,
        venue_name(0u8) == Some(seq!['s', 'd', 'e', 'x']),
        venue_name(1u8) == Some(seq!['a', 'm', 'm']),
        venue_name(2u8) == Some(seq!['b', 'r', 'i', 'd', 'g', 'e']),
        code > 2 ==> venue_name(code) is None,
{
    lemma_venue_names_distinct();
}

} // verus!
