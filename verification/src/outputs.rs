use vstd::prelude::*;

verus! {

/// What output discovery reads of one display connector: whether a display
/// is connected, whether the connector offers any mode, and, for each of its
/// encoders in order, the CRTCs that the encoder can drive, in the device's
/// order.
#[derive(Debug)]
pub struct ConnectorProbe {
    pub connected: bool,
    pub has_mode: bool,
    pub encoder_crtcs: Vec<Vec<u32>>,
}

/// Abstract value of a [`ConnectorProbe`].
pub struct ConnectorProbeView {
    pub connected: bool,
    pub has_mode: bool,
    pub encoder_crtcs: Seq<Seq<u32>>,
}

impl View for ConnectorProbe {
    type V = ConnectorProbeView;

    open spec fn view(&self) -> ConnectorProbeView {
        ConnectorProbeView {
            connected: self.connected,
            has_mode: self.has_mode,
            encoder_crtcs: self.encoder_crtcs@.map_values(|e: Vec<u32>| e@),
        }
    }
}

/// An output to drive: the position of its connector among the probed
/// connectors, and the CRTC chosen for it.
#[derive(Debug, Clone, Copy, PartialEq, Eq, Structural)]
pub struct OutputChoice {
    pub connector: usize,
    pub crtc: u32,
}

/// The first CRTC of `cs`, from position `k` on, that is not in `used`.
pub open spec fn first_unused_from(cs: Seq<u32>, used: Seq<u32>, k: int) -> Option<u32>
    decreases cs.len() - k,
{
    if k < 0 || k >= cs.len() {
        None
    } else if !used.contains(cs[k]) {
        Some(cs[k])
    } else {
        first_unused_from(cs, used, k + 1)
    }
}

/// The first CRTC not in `used` that the encoders at positions `e` and after
/// offer, taking the encoders in order and each encoder's CRTCs in order.
pub open spec fn encoder_choice_from(encs: Seq<Seq<u32>>, used: Seq<u32>, e: int) -> Option<u32>
    decreases encs.len() - e,
{
    if e < 0 || e >= encs.len() {
        None
    } else {
        match first_unused_from(encs[e], used, 0) {
            Some(c) => Some(c),
            None => encoder_choice_from(encs, used, e + 1),
        }
    }
}

/// The CRTC chosen for a connector, given the CRTCs that earlier outputs
/// use: nothing for a connector without a display or without a mode;
/// otherwise the first CRTC, over its encoders in order, that no earlier
/// output uses (nothing when every CRTC it can reach is taken).
pub open spec fn connector_choice(p: ConnectorProbeView, used: Seq<u32>) -> Option<u32> {
    if !(p.connected && p.has_mode) {
        None
    } else {
        encoder_choice_from(p.encoder_crtcs, used, 0)
    }
}

/// The CRTCs that the outputs use.
pub open spec fn used_crtcs(outs: Seq<OutputChoice>) -> Seq<u32> {
    outs.map_values(|o: OutputChoice| o.crtc)
}

/// The outputs chosen over the connectors, in connector order: one for each
/// connected connector with a mode that can still reach a free CRTC.
pub open spec fn select_outputs_spec(ps: Seq<ConnectorProbeView>) -> Seq<OutputChoice>
    decreases ps.len(),
{
    if ps.len() == 0 {
        Seq::empty()
    } else {
        let prev = select_outputs_spec(ps.drop_last());
        match connector_choice(ps.last(), used_crtcs(prev)) {
            Some(c) => prev.push(OutputChoice { connector: (ps.len() - 1) as usize, crtc: c }),
            None => prev,
        }
    }
}

/// The abstract values of the probed connectors.
pub open spec fn probes_view(s: Seq<ConnectorProbe>) -> Seq<ConnectorProbeView> {
    s.map_values(|p: ConnectorProbe| p@)
}

/// Whether `x` is among the CRTCs in `v`.
fn contains_crtc(v: &Vec<u32>, x: u32) -> (r: bool)
    ensures
        r == v@.contains(x),
{
    let n = v.len();
    for i in 0..n
        invariant
            n == v@.len(),
            forall|j: int| 0 <= j < i ==> v@[j] != x,
    {
        if v[i] == x {
            assert(v@[i as int] == x);
            return true;
        }
    }
    false
}

/// Chooses the outputs to drive on one display device: one for each
/// connected connector with a mode, on the first CRTC that its encoders can
/// drive and that no earlier output uses (see [`connector_choice`]).
pub fn select_outputs(connectors: &[ConnectorProbe]) -> (r: Vec<OutputChoice>)
    ensures
        r@ == select_outputs_spec(probes_view(connectors@)),
{
    let ghost ps = probes_view(connectors@);
    let mut r: Vec<OutputChoice> = Vec::new();
    let mut used: Vec<u32> = Vec::new();
    let n = connectors.len();
    for i in 0..n
        invariant
            n == connectors@.len(),
            ps == probes_view(connectors@),
            r@ == select_outputs_spec(ps.take(i as int)),
            used@ == used_crtcs(r@),
    {
        let p = &connectors[i];
        let ghost t = ps.take(i + 1);
        assert(t.drop_last() =~= ps.take(i as int));
        assert(t.last() == p@);
        let ghost encs = p@.encoder_crtcs;
        let mut choice: Option<u32> = None;
        if p.connected && p.has_mode {
            let m = p.encoder_crtcs.len();
            let mut e: usize = 0;
            while e < m
                invariant_except_break
                    m == p.encoder_crtcs@.len(),
                    encs == p@.encoder_crtcs,
                    e <= m,
                    choice is None,
                    encoder_choice_from(encs, used@, e as int) == encoder_choice_from(
                        encs,
                        used@,
                        0,
                    ),
                ensures
                    choice == encoder_choice_from(encs, used@, 0),
                decreases m - e,
            {
                let cs = &p.encoder_crtcs[e];
                assert(encs[e as int] == cs@);
                let k_len = cs.len();
                let mut k: usize = 0;
                while k < k_len
                    invariant_except_break
                        k_len == cs@.len(),
                        k <= k_len,
                        choice is None,
                        first_unused_from(cs@, used@, k as int) == first_unused_from(
                            cs@,
                            used@,
                            0,
                        ),
                    ensures
                        choice == first_unused_from(cs@, used@, 0),
                    decreases k_len - k,
                {
                    let c = cs[k];
                    if !contains_crtc(&used, c) {
                        choice = Some(c);
                        break;
                    }
                    k = k + 1;
                }
                if choice.is_some() {
                    break;
                }
                e = e + 1;
            }
        }
        assert(choice == connector_choice(p@, used_crtcs(r@)));
        match choice {
            Some(c) => {
                r.push(OutputChoice { connector: i, crtc: c });
                used.push(c);
                assert(used@ =~= used_crtcs(r@));
            },
            None => {},
        }
    }
    assert(ps.take(n as int) =~= ps);
    r
}

proof fn lemma_first_unused_sound(cs: Seq<u32>, used: Seq<u32>, k: int)
    ensures
        first_unused_from(cs, used, k) matches Some(c) ==> cs.contains(c) && !used.contains(c),
    decreases cs.len() - k,
{
    if 0 <= k < cs.len() {
        if used.contains(cs[k]) {
            lemma_first_unused_sound(cs, used, k + 1);
        } else {
            assert(cs[k] == cs[k]);
        }
    }
}

proof fn lemma_encoder_choice_sound(encs: Seq<Seq<u32>>, used: Seq<u32>, e: int)
    ensures
        encoder_choice_from(encs, used, e) matches Some(c) ==> !used.contains(c) && exists|j: int|
            0 <= j < encs.len() && #[trigger] encs[j].contains(c),
    decreases encs.len() - e,
{
    if 0 <= e < encs.len() {
        lemma_first_unused_sound(encs[e], used, 0);
        if first_unused_from(encs[e], used, 0) is None {
            lemma_encoder_choice_sound(encs, used, e + 1);
        }
    }
}

proof fn lemma_first_unused_complete(cs: Seq<u32>, used: Seq<u32>, k: int)
    requires
        0 <= k,
    ensures
        first_unused_from(cs, used, k) is None ==> forall|i: int|
            k <= i < cs.len() ==> used.contains(#[trigger] cs[i]),
    decreases cs.len() - k,
{
    if k < cs.len() && used.contains(cs[k]) {
        lemma_first_unused_complete(cs, used, k + 1);
    }
}

proof fn lemma_encoder_choice_complete(encs: Seq<Seq<u32>>, used: Seq<u32>, e: int)
    requires
        0 <= e,
    ensures
        encoder_choice_from(encs, used, e) is None ==> forall|j: int, i: int|
            e <= j < encs.len() && 0 <= i < encs[j].len() ==> used.contains(#[trigger] encs[j][i]),
    decreases encs.len() - e,
{
    if e < encs.len() {
        lemma_first_unused_complete(encs[e], used, 0);
        lemma_encoder_choice_complete(encs, used, e + 1);
    }
}

/// Law: every chosen output belongs to a connected connector that offers a
/// mode, its CRTC is one that an encoder of that connector can drive, the
/// outputs come in strictly increasing connector order (so no connector gets
/// two), and no two outputs share a CRTC.
pub proof fn lemma_select_outputs_sound(ps: Seq<ConnectorProbeView>)
    requires
        ps.len() <= usize::MAX,
    ensures
        forall|k: int|
            0 <= k < select_outputs_spec(ps).len() ==> {
                let o = #[trigger] select_outputs_spec(ps)[k];
                &&& o.connector < ps.len()
                &&& ps[o.connector as int].connected
                &&& ps[o.connector as int].has_mode
                &&& exists|e: int|
                    0 <= e < ps[o.connector as int].encoder_crtcs.len()
                        && #[trigger] ps[o.connector as int].encoder_crtcs[e].contains(o.crtc)
            },
        forall|k: int, l: int|
            0 <= k < l < select_outputs_spec(ps).len() ==> #[trigger] select_outputs_spec(ps)[k].connector
                < #[trigger] select_outputs_spec(ps)[l].connector,
        forall|k: int, l: int|
            0 <= k < l < select_outputs_spec(ps).len() ==> #[trigger] select_outputs_spec(ps)[k].crtc
                != #[trigger] select_outputs_spec(ps)[l].crtc,
    decreases ps.len(),
{
    if ps.len() > 0 {
        let p = ps.drop_last();
        lemma_select_outputs_sound(p);
        let prev = select_outputs_spec(p);
        let r = select_outputs_spec(ps);
        let used = used_crtcs(prev);
        lemma_encoder_choice_sound(ps.last().encoder_crtcs, used, 0);
        assert forall|k: int| 0 <= k < prev.len() implies prev[k].connector < p.len() by {
            let o = prev[k];
        }
        match connector_choice(ps.last(), used) {
            Some(c) => {
                assert(r == prev.push(OutputChoice { connector: (ps.len() - 1) as usize, crtc: c }));
                assert forall|k: int| 0 <= k < r.len() implies {
                    let o = #[trigger] r[k];
                    &&& o.connector < ps.len()
                    &&& ps[o.connector as int].connected
                    &&& ps[o.connector as int].has_mode
                    &&& exists|e: int|
                        0 <= e < ps[o.connector as int].encoder_crtcs.len()
                            && #[trigger] ps[o.connector as int].encoder_crtcs[e].contains(o.crtc)
                } by {
                    if k < prev.len() {
                        assert(r[k] == prev[k]);
                        assert(ps[prev[k].connector as int] == p[prev[k].connector as int]);
                    } else {
                        assert(ps[ps.len() - 1] == ps.last());
                        let encs = ps.last().encoder_crtcs;
                        let j = choose|j: int| 0 <= j < encs.len() && #[trigger] encs[j].contains(c);
                        assert(r[k].connector as int == ps.len() - 1);
                        assert(ps[r[k].connector as int].encoder_crtcs[j].contains(r[k].crtc));
                    }
                }
                assert forall|k: int, l: int| 0 <= k < l < r.len() implies #[trigger] r[k].connector
                    < #[trigger] r[l].connector by {
                    if l < prev.len() {
                        assert(r[k] == prev[k] && r[l] == prev[l]);
                    } else {
                        assert(r[k] == prev[k]);
                        assert(prev[k].connector < p.len());
                    }
                }
                assert forall|k: int, l: int| 0 <= k < l < r.len() implies #[trigger] r[k].crtc
                    != #[trigger] r[l].crtc by {
                    if l < prev.len() {
                        assert(r[k] == prev[k] && r[l] == prev[l]);
                    } else {
                        assert(r[k] == prev[k]);
                        assert(used[k] == prev[k].crtc);
                        assert(used.contains(prev[k].crtc));
                    }
                }
            },
            None => {
                assert(r == prev);
                assert forall|k: int| 0 <= k < r.len() implies {
                    let o = #[trigger] r[k];
                    &&& o.connector < ps.len()
                    &&& ps[o.connector as int].connected
                    &&& ps[o.connector as int].has_mode
                    &&& exists|e: int|
                        0 <= e < ps[o.connector as int].encoder_crtcs.len()
                            && #[trigger] ps[o.connector as int].encoder_crtcs[e].contains(o.crtc)
                } by {
                    assert(ps[prev[k].connector as int] == p[prev[k].connector as int]);
                }
            },
        }
    }
}

/// Law: a connected connector with a mode gets no output only when every
/// CRTC that its encoders can drive is already used by an earlier output.
pub proof fn lemma_select_outputs_complete(ps: Seq<ConnectorProbeView>)
    requires
        ps.len() > 0,
        ps.last().connected,
        ps.last().has_mode,
        select_outputs_spec(ps) == select_outputs_spec(ps.drop_last()),
    ensures
        forall|j: int, i: int|
            0 <= j < ps.last().encoder_crtcs.len() && 0 <= i < ps.last().encoder_crtcs[j].len()
                ==> used_crtcs(select_outputs_spec(ps.drop_last())).contains(
                #[trigger] ps.last().encoder_crtcs[j][i],
            ),
{
    let prev = select_outputs_spec(ps.drop_last());
    lemma_encoder_choice_complete(ps.last().encoder_crtcs, used_crtcs(prev), 0);
    if connector_choice(ps.last(), used_crtcs(prev)) is Some {
        assert(select_outputs_spec(ps).len() == prev.len() + 1);
    }
}

} // verus!
