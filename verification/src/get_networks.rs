use vstd::prelude::*;

use crate::network_data::{NetworkMode, WifiNetwork, WifiSecurity};
use crate::text::{
    spec_lines, spec_parse_i32_or_zero, spec_parse_u32_or_zero, spec_parse_u8_or_zero,
    spec_tokens, split_lines, split_tokens, str_eq, parse_i32_or_zero, parse_u32_or_zero,
    parse_u8_or_zero,
};

verus! {

/// The security class a listing token denotes.
pub open spec fn spec_security_of(t: Seq<char>) -> WifiSecurity {
    if t == "OPEN"@ {
        WifiSecurity::Open
    } else if t == "WEP"@ {
        WifiSecurity::Wep
    } else if t == "WPA"@ {
        WifiSecurity::Wpa
    } else if t == "WPA2"@ {
        WifiSecurity::Wpa2
    } else if t == "WPA3"@ {
        WifiSecurity::Wpa3
    } else {
        WifiSecurity::Unknown
    }
}

/// The security class a listing token denotes.
pub fn security_of_token(t: &str) -> (r: WifiSecurity)
    ensures
        r == spec_security_of(t@),
{
    if str_eq(t, "OPEN") {
        WifiSecurity::Open
    } else if str_eq(t, "WEP") {
        WifiSecurity::Wep
    } else if str_eq(t, "WPA") {
        WifiSecurity::Wpa
    } else if str_eq(t, "WPA2") {
        WifiSecurity::Wpa2
    } else if str_eq(t, "WPA3") {
        WifiSecurity::Wpa3
    } else {
        WifiSecurity::Unknown
    }
}

/// The operating mode a listing token denotes.
pub open spec fn spec_mode_of(t: Seq<char>) -> NetworkMode {
    if t == "Infra"@ {
        NetworkMode::Infra
    } else if t == "Ad-Hoc"@ {
        NetworkMode::Ibss
    } else if t == "Monitor"@ {
        NetworkMode::Monitor
    } else if t == "Mesh"@ {
        NetworkMode::Mesh
    } else if t == "Client"@ {
        NetworkMode::Client
    } else if t == "AP"@ {
        NetworkMode::Ap
    } else if t == "WDS"@ {
        NetworkMode::Wds
    } else if t == "P2P"@ {
        NetworkMode::P2p
    } else if t == "Bridge"@ {
        NetworkMode::Bridge
    } else if t == "Repeater"@ {
        NetworkMode::Repeater
    } else {
        NetworkMode::Unknown
    }
}

/// The operating mode a listing token denotes.
pub fn mode_of_token(t: &str) -> (r: NetworkMode)
    ensures
        r == spec_mode_of(t@),
{
    if str_eq(t, "Infra") {
        NetworkMode::Infra
    } else if str_eq(t, "Ad-Hoc") {
        NetworkMode::Ibss
    } else if str_eq(t, "Monitor") {
        NetworkMode::Monitor
    } else if str_eq(t, "Mesh") {
        NetworkMode::Mesh
    } else if str_eq(t, "Client") {
        NetworkMode::Client
    } else if str_eq(t, "AP") {
        NetworkMode::Ap
    } else if str_eq(t, "WDS") {
        NetworkMode::Wds
    } else if str_eq(t, "P2P") {
        NetworkMode::P2p
    } else if str_eq(t, "Bridge") {
        NetworkMode::Bridge
    } else if str_eq(t, "Repeater") {
        NetworkMode::Repeater
    } else {
        NetworkMode::Unknown
    }
}

/// One row of the bulk Wi-Fi listing, before its display name is known.
#[derive(Debug, Clone)]
pub struct ListingRow {
    pub currently_used: bool,
    pub bssid: String,
    pub signal_strength: i32,
    pub frequency: u32,
    pub channel: u8,
    pub security: WifiSecurity,
    pub network_mode: NetworkMode,
}

/// The mathematical content of one listing row.
pub struct ListingRowV {
    pub currently_used: bool,
    pub bssid: Seq<char>,
    pub signal_strength: i32,
    pub frequency: u32,
    pub channel: u8,
    pub security: WifiSecurity,
    pub network_mode: NetworkMode,
}

impl View for ListingRow {
    type V = ListingRowV;

    open spec fn view(&self) -> ListingRowV {
        ListingRowV {
            currently_used: self.currently_used,
            bssid: self.bssid@,
            signal_strength: self.signal_strength,
            frequency: self.frequency,
            channel: self.channel,
            security: self.security,
            network_mode: self.network_mode,
        }
    }
}

impl DeepView for ListingRow {
    type V = ListingRowV;

    open spec fn deep_view(&self) -> ListingRowV {
        self@
    }
}

/// The row a listing line's tokens describe, if the line has the full
/// token count. The columns are read by token position: the active flag
/// first, then address, signal and frequency, with the security class
/// and mode as the seventh and eighth tokens, the frequency's printed
/// unit having taken the place the channel number is read from.
pub open spec fn spec_row_of_tokens(toks: Seq<Seq<char>>) -> Option<ListingRowV> {
    if toks.len() < 8 {
        None
    } else {
        Some(
            ListingRowV {
                currently_used: toks[0] == "yes"@,
                bssid: toks[1],
                signal_strength: spec_parse_i32_or_zero(toks[2]),
                frequency: spec_parse_u32_or_zero(toks[3]),
                channel: spec_parse_u8_or_zero(toks[4]),
                security: spec_security_of(toks[6]),
                network_mode: spec_mode_of(toks[7]),
            },
        )
    }
}

/// The rows of a sequence of listing lines, in order; lines with too few
/// tokens are skipped.
pub open spec fn spec_listing(lines: Seq<Seq<char>>) -> Seq<ListingRowV>
    decreases lines.len(),
{
    if lines.len() == 0 {
        Seq::empty()
    } else {
        match spec_row_of_tokens(spec_tokens(lines[0])) {
            Some(row) => seq![row] + spec_listing(lines.drop_first()),
            None => spec_listing(lines.drop_first()),
        }
    }
}

/// Parses the bulk listing tool's raw output: the first line is the
/// header, and every following line with the full column count yields
/// one row.
pub fn parse_wifi_listing(output: &str) -> (r: Vec<ListingRow>)
    ensures
        r.deep_view() == spec_listing(spec_lines(output@).drop_first()),
{
    let lines = split_lines(output);
    let mut out: Vec<ListingRow> = Vec::new();
    let mut j: usize = 1;
    proof {
        assert(lines.deep_view().drop_first() =~= lines.deep_view().subrange(
            1,
            lines.deep_view().len() as int,
        ));
        assert(out.deep_view() + spec_listing(lines.deep_view().drop_first()) =~= spec_listing(
            lines.deep_view().drop_first(),
        ));
    }
    while j < lines.len()
        invariant
            lines.deep_view() == spec_lines(output@),
            1 <= j <= lines.len(),
            spec_listing(spec_lines(output@).drop_first()) =~= out.deep_view() + spec_listing(
                lines.deep_view().subrange(j as int, lines.deep_view().len() as int),
            ),
        decreases lines.len() - j,
    {
        let ghost dv = lines.deep_view();
        let ghost rest = dv.subrange(j as int, dv.len() as int);
        proof {
            assert(rest[0] == dv[j as int]);
            assert(rest.drop_first() =~= dv.subrange(j as int + 1, dv.len() as int));
            assert(dv[j as int] == lines@[j as int]@);
        }
        let toks = split_tokens(lines[j].as_str());
        if toks.len() >= 8 {
            proof {
                assert(toks.deep_view()[0] == toks@[0]@);
                assert(toks.deep_view()[1] == toks@[1]@);
                assert(toks.deep_view()[2] == toks@[2]@);
                assert(toks.deep_view()[3] == toks@[3]@);
                assert(toks.deep_view()[4] == toks@[4]@);
                assert(toks.deep_view()[6] == toks@[6]@);
                assert(toks.deep_view()[7] == toks@[7]@);
            }
            let row = ListingRow {
                currently_used: str_eq(toks[0].as_str(), "yes"),
                bssid: toks[1].clone(),
                signal_strength: parse_i32_or_zero(toks[2].as_str()),
                frequency: parse_u32_or_zero(toks[3].as_str()),
                channel: parse_u8_or_zero(toks[4].as_str()),
                security: security_of_token(toks[6].as_str()),
                network_mode: mode_of_token(toks[7].as_str()),
            };
            let ghost before = out.deep_view();
            let ghost rowv = row@;
            out.push(row);
            proof {
                assert(out.deep_view() =~= before.push(rowv));
                assert(rowv == spec_row_of_tokens(spec_tokens(dv[j as int]))->Some_0);
                assert(before + (seq![rowv] + spec_listing(rest.drop_first())) =~= out.deep_view()
                    + spec_listing(rest.drop_first()));
            }
        }
        j += 1;
    }
    proof {
        let dv = lines.deep_view();
        if lines.len() >= 1 {
            assert(dv.subrange(dv.len() as int, dv.len() as int) =~= Seq::<Seq<char>>::empty());
        }
        assert(out.deep_view() + Seq::<ListingRowV>::empty() =~= out.deep_view());
    }
    out
}

/// Law of the empty scan: a listing in which no line carries a full row
/// yields the empty list of rows, never an error.
pub proof fn lemma_no_rows_means_empty_listing(lines: Seq<Seq<char>>)
    requires
        forall|i: int| 0 <= i < lines.len() ==> spec_row_of_tokens(spec_tokens(lines[i])) is None,
    ensures
        spec_listing(lines) =~= Seq::<ListingRowV>::empty(),
    decreases lines.len(),
{
    if lines.len() > 0 {
        let rest = lines.drop_first();
        assert(forall|i: int| 0 <= i < rest.len() ==> rest[i] == lines[i + 1]);
        lemma_no_rows_means_empty_listing(rest);
    }
}

/// Whether a token is one of the operating-mode keywords that end a
/// display name: a mode label in its printed or lowercased form.
pub open spec fn spec_is_mode_keyword(t: Seq<char>) -> bool {
    ||| t == "Infra"@
    ||| t == "infra"@
    ||| t == "Ibss"@
    ||| t == "ibss"@
    ||| t == "Monitor"@
    ||| t == "monitor"@
    ||| t == "Mesh"@
    ||| t == "mesh"@
    ||| t == "Client"@
    ||| t == "client"@
    ||| t == "Ap"@
    ||| t == "ap"@
    ||| t == "Wds"@
    ||| t == "wds"@
    ||| t == "P2p"@
    ||| t == "p2p"@
    ||| t == "Bridge"@
    ||| t == "bridge"@
    ||| t == "Repeater"@
    ||| t == "repeater"@
}

/// Whether a token is one of the operating-mode keywords.
pub fn is_mode_keyword(t: &str) -> (r: bool)
    ensures
        r == spec_is_mode_keyword(t@),
{
    str_eq(t, "Infra") || str_eq(t, "infra") || str_eq(t, "Ibss") || str_eq(t, "ibss") || str_eq(
        t,
        "Monitor",
    ) || str_eq(t, "monitor") || str_eq(t, "Mesh") || str_eq(t, "mesh") || str_eq(t, "Client")
        || str_eq(t, "client") || str_eq(t, "Ap") || str_eq(t, "ap") || str_eq(t, "Wds") || str_eq(
        t,
        "wds",
    ) || str_eq(t, "P2p") || str_eq(t, "p2p") || str_eq(t, "Bridge") || str_eq(t, "bridge")
        || str_eq(t, "Repeater") || str_eq(t, "repeater")
}

/// The tokens before the first operating-mode keyword.
pub open spec fn take_until_keyword(toks: Seq<Seq<char>>) -> Seq<Seq<char>>
    decreases toks.len(),
{
    if toks.len() == 0 {
        Seq::empty()
    } else if spec_is_mode_keyword(toks[0]) {
        Seq::empty()
    } else {
        seq![toks[0]] + take_until_keyword(toks.drop_first())
    }
}

/// The parts joined with single spaces.
pub open spec fn join_spaces(parts: Seq<Seq<char>>) -> Seq<char>
    decreases parts.len(),
{
    if parts.len() == 0 {
        Seq::empty()
    } else if parts.len() == 1 {
        parts[0]
    } else {
        join_spaces(parts.drop_last()) + " "@ + parts.last()
    }
}

/// The display name carried by a detail listing: on the first line after
/// the header that has more than one token, the tokens after the first
/// one and before the first operating-mode keyword, joined with spaces;
/// empty when no such line exists.
pub open spec fn spec_ssid_of_lines(lines: Seq<Seq<char>>) -> Seq<char>
    decreases lines.len(),
{
    if lines.len() == 0 {
        Seq::empty()
    } else if spec_tokens(lines[0]).len() > 1 {
        join_spaces(take_until_keyword(spec_tokens(lines[0]).drop_first()))
    } else {
        spec_ssid_of_lines(lines.drop_first())
    }
}

proof fn lemma_take_until_is_prefix(toks: Seq<Seq<char>>, m: int)
    requires
        0 <= m <= toks.len(),
        forall|k: int| 0 <= k < m ==> !spec_is_mode_keyword(toks[k]),
        m < toks.len() ==> spec_is_mode_keyword(toks[m]),
    ensures
        take_until_keyword(toks) =~= toks.subrange(0, m),
    decreases toks.len(),
{
    if toks.len() == 0 {
        assert(toks.subrange(0, 0) =~= Seq::<Seq<char>>::empty());
    } else if spec_is_mode_keyword(toks[0]) {
        assert(m == 0);
        assert(toks.subrange(0, 0) =~= Seq::<Seq<char>>::empty());
    } else {
        assert(m >= 1);
        let rest = toks.drop_first();
        assert(forall|k: int| 0 <= k < m - 1 ==> rest[k] == toks[k + 1]);
        if m < toks.len() {
            assert(rest[m - 1] == toks[m]);
        }
        lemma_take_until_is_prefix(rest, m - 1);
        assert(rest.subrange(0, m - 1) =~= toks.subrange(1, m));
        assert(seq![toks[0]] + toks.subrange(1, m) =~= toks.subrange(0, m));
    }
}

fn find_cut(toks: &Vec<String>, k: usize) -> (r: usize)
    requires
        1 <= k <= toks.len(),
    ensures
        k <= r <= toks.len(),
        forall|t: int| k <= t < r ==> !spec_is_mode_keyword(toks.deep_view()[t]),
        r < toks.len() ==> spec_is_mode_keyword(toks.deep_view()[r as int]),
    decreases toks.len() - k,
{
    if k == toks.len() {
        k
    } else {
        proof {
            assert(toks.deep_view()[k as int] == toks@[k as int]@);
        }
        if is_mode_keyword(toks[k].as_str()) {
            k
        } else {
            find_cut(toks, k + 1)
        }
    }
}

fn join_range(toks: &Vec<String>, from: usize, to: usize) -> (r: String)
    requires
        from <= to <= toks.len(),
    ensures
        r@ == join_spaces(toks.deep_view().subrange(from as int, to as int)),
{
    let mut joined = String::new();
    let mut k: usize = from;
    proof {
        assert(toks.deep_view().subrange(from as int, from as int) =~= Seq::<Seq<char>>::empty());
    }
    while k < to
        invariant
            from <= k <= to <= toks.len(),
            joined@ == join_spaces(toks.deep_view().subrange(from as int, k as int)),
        decreases to - k,
    {
        proof {
            assert(toks.deep_view()[k as int] == toks@[k as int]@);
            let parts = toks.deep_view().subrange(from as int, k as int + 1);
            assert(parts.drop_last() =~= toks.deep_view().subrange(from as int, k as int));
            assert(parts.last() == toks.deep_view()[k as int]);
        }
        if k > from {
            joined.append(" ");
        }
        joined.append(toks[k].as_str());
        proof {
            let parts = toks.deep_view().subrange(from as int, k as int + 1);
            if k == from {
                assert(parts.len() == 1);
                assert(join_spaces(parts) == parts[0]);
                assert(joined@ =~= parts[0]);
            } else {
                assert(join_spaces(parts) == join_spaces(parts.drop_last()) + " "@
                    + parts.last());
            }
        }
        k += 1;
    }
    joined
}

/// Recovers a display name from the detail tool's raw output: the first
/// line after the header with more than one token carries the name in
/// the tokens after its first one, up to the first operating-mode
/// keyword, joined with spaces.
pub fn extract_ssid(detail_output: &str) -> (r: String)
    ensures
        r@ == spec_ssid_of_lines(spec_lines(detail_output@).drop_first()),
{
    let lines = split_lines(detail_output);
    let mut j: usize = 1;
    proof {
        assert(lines.deep_view().drop_first() =~= lines.deep_view().subrange(
            1,
            lines.deep_view().len() as int,
        ));
    }
    while j < lines.len()
        invariant
            lines.deep_view() == spec_lines(detail_output@),
            1 <= j <= lines.len(),
            spec_ssid_of_lines(spec_lines(detail_output@).drop_first()) == spec_ssid_of_lines(
                lines.deep_view().subrange(j as int, lines.deep_view().len() as int),
            ),
        decreases lines.len() - j,
    {
        let ghost dv = lines.deep_view();
        let ghost rest = dv.subrange(j as int, dv.len() as int);
        proof {
            assert(rest[0] == dv[j as int]);
            assert(rest.drop_first() =~= dv.subrange(j as int + 1, dv.len() as int));
            assert(dv[j as int] == lines@[j as int]@);
        }
        let toks = split_tokens(lines[j].as_str());
        if toks.len() > 1 {
            let cut = find_cut(&toks, 1);
            proof {
                let tdv = toks.deep_view();
                assert(forall|k: int| 0 <= k < cut - 1 ==> tdv.drop_first()[k] == tdv[k + 1]);
                if cut < toks.len() {
                    assert(tdv.drop_first()[cut - 1] == tdv[cut as int]);
                }
                lemma_take_until_is_prefix(tdv.drop_first(), cut as int - 1);
                assert(tdv.drop_first().subrange(0, cut as int - 1) =~= tdv.subrange(
                    1,
                    cut as int,
                ));
            }
            let joined = join_range(&toks, 1, cut);
            return joined;
        }
        j += 1;
    }
    proof {
        let dv = lines.deep_view();
        if j >= lines.len() {
            assert(dv.subrange(dv.len() as int, dv.len() as int) =~= Seq::<Seq<char>>::empty());
        }
    }
    String::new()
}

/// Completes a listing row into a discovered-network record with the
/// display name recovered for its address; scans never mark a network
/// hidden and never report a link speed.
pub fn assemble_network(row: &ListingRow, ssid: String) -> (r: WifiNetwork)
    ensures
        r.ssid@ == ssid@,
        r.bssid@ == row@.bssid,
        r.signal_strength == row@.signal_strength,
        r.frequency == row@.frequency,
        r.channel == row@.channel,
        r.security == row@.security,
        r.is_hidden == false,
        r.speed is None,
        r.network_mode == row@.network_mode,
        r.currently_used == row@.currently_used,
{
    WifiNetwork {
        ssid,
        bssid: row.bssid.clone(),
        signal_strength: row.signal_strength,
        frequency: row.frequency,
        channel: row.channel,
        security: row.security,
        is_hidden: false,
        speed: None,
        network_mode: row.network_mode,
        currently_used: row.currently_used,
    }
}

} // verus!
