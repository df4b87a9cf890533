//! Hardware-address (MAC) resolution: given the raw text that the
//! host platform's facility produced for an interface, extract the
//! hardware address, or report it unresolved.
//!
//! The platform decides which extraction strategy applies; fetching
//! the raw text (running the configuration utility, reading the
//! per-interface pseudo-file) is the embedding program's concern.

use vstd::prelude::*;
use crate::text::{
    contains_chars, contains_sub, copy_chars, count_char, count_char_in, sep_pred, split_pieces,
    split_tokens, split_when, str_chars, tokens_of, trim_cut, trim_spaces, trim_when, views_of,
    chars_to_string, Cut,
};

verus! {

/// The host-platform family, chosen once by the embedding program.
#[derive(Clone, Copy, Debug)]
pub enum Platform {
    MacOs,
    Linux,
    Windows,
    Other,
}

/// The accepted shape of a textual hardware address: 17 characters,
/// exactly 5 of them colons (`xx:xx:xx:xx:xx:xx`).
pub open spec fn mac_shaped(t: Seq<char>) -> bool {
    t.len() == 17 && count_char(t, ':') == 5
}

/// The keyword token that precedes the hardware address in BSD-style
/// interface-configuration output.
pub open spec fn ether_keyword() -> Seq<char> {
    seq!['e', 't', 'h', 'e', 'r']
}

/// The first well-shaped token immediately following an `ether` token.
pub open spec fn scan_ether_tokens(ts: Seq<Seq<char>>) -> Option<Seq<char>>
    decreases ts.len(),
{
    if ts.len() < 2 {
        None
    } else if ts.first() == ether_keyword() && mac_shaped(ts[1]) {
        Some(ts[1])
    } else {
        scan_ether_tokens(ts.drop_first())
    }
}

/// Line-by-line scan of BSD-style interface-configuration output.
pub open spec fn scan_ether_lines(ls: Seq<Seq<char>>) -> Option<Seq<char>>
    decreases ls.len(),
{
    if ls.len() == 0 {
        None
    } else if scan_ether_tokens(tokens_of(ls.first())) is Some {
        scan_ether_tokens(tokens_of(ls.first()))
    } else {
        scan_ether_lines(ls.drop_first())
    }
}

/// What the BSD-style strategy extracts from the utility's output:
/// the first well-shaped token following an `ether` token, scanning
/// lines in order.
pub open spec fn ifconfig_mac(out: Seq<char>) -> Option<Seq<char>> {
    scan_ether_lines(split_when(out, sep_pred('\n')))
}

/// What the Linux strategy extracts from the pseudo-file's content:
/// the whitespace-trimmed text, if non-empty.
pub open spec fn sysfs_mac(content: Seq<char>) -> Option<Seq<char>> {
    if trim_spaces(content).len() > 0 {
        Some(trim_spaces(content))
    } else {
        None
    }
}

/// What one CSV line yields for `name`: if the line mentions the name
/// and has at least two comma-separated fields, the second field,
/// whitespace-trimmed and unquoted — accepted only if non-empty.
pub open spec fn getmac_field(line: Seq<char>, name: Seq<char>) -> Option<Seq<char>> {
    if !contains_sub(line, name) {
        None
    } else {
        let ps = split_when(line, sep_pred(','));
        if ps.len() < 2 {
            None
        } else {
            let f = trim_when(trim_spaces(ps[1]), sep_pred('"'));
            if f.len() > 0 {
                Some(f)
            } else {
                None
            }
        }
    }
}

/// Line-by-line scan of the MAC-listing utility's CSV output.
pub open spec fn scan_getmac_lines(ls: Seq<Seq<char>>, name: Seq<char>) -> Option<Seq<char>>
    decreases ls.len(),
{
    if ls.len() == 0 {
        None
    } else if getmac_field(ls.first(), name) is Some {
        getmac_field(ls.first(), name)
    } else {
        scan_getmac_lines(ls.drop_first(), name)
    }
}

/// What the Windows strategy extracts from the utility's CSV output.
pub open spec fn getmac_mac(out: Seq<char>, name: Seq<char>) -> Option<Seq<char>> {
    scan_getmac_lines(split_when(out, sep_pred('\n')), name)
}

/// The characters of an optional string.
pub open spec fn opt_chars(o: Option<String>) -> Option<Seq<char>> {
    match o {
        Some(s) => Some(s@),
        None => None,
    }
}

/// The hardware address each platform strategy resolves from the raw
/// text its facility produced (`None` standing for a facility that
/// could not be run or read).
pub open spec fn mac_lookup(p: Platform, name: Seq<char>, source: Option<Seq<char>>) -> Option<
    Seq<char>,
> {
    match p {
        Platform::MacOs => match source {
            Some(t) => ifconfig_mac(t),
            None => None,
        },
        Platform::Linux => match source {
            Some(t) => sysfs_mac(t),
            None => None,
        },
        Platform::Windows => match source {
            Some(t) => getmac_mac(t, name),
            None => None,
        },
        Platform::Other => None,
    }
}

/// Whether `t` is exactly the `ether` keyword.
fn is_ether_keyword(t: &Vec<char>) -> (r: bool)
    ensures
        r == (t@ == ether_keyword()),
{
    let r = t.len() == 5 && t[0] == 'e' && t[1] == 't' && t[2] == 'h' && t[3] == 'e' && t[4]
        == 'r';
    proof {
        if r {
            assert(t@ =~= ether_keyword());
        } else {
            assert(t@ != ether_keyword());
        }
    }
    r
}

/// Whether `t` has the accepted hardware-address shape.
fn is_mac_shaped(t: &Vec<char>) -> (r: bool)
    ensures
        r == mac_shaped(t@),
{
    t.len() == 17 && count_char_in(t, ':') == 5
}

/// The first well-shaped token following an `ether` token, if any.
fn find_ether_mac(ts: &Vec<Vec<char>>) -> (r: Option<Vec<char>>)
    ensures
        match r {
            Some(m) => scan_ether_tokens(views_of(ts@)) == Some(m@),
            None => scan_ether_tokens(views_of(ts@)) is None,
        },
{
    let ghost full = views_of(ts@);
    proof {
        assert(full.skip(0) =~~= full);
    }
    let mut i: usize = 0;
    while i < ts.len()
        invariant
            i <= ts@.len(),
            full == views_of(ts@),
            scan_ether_tokens(full) == scan_ether_tokens(full.skip(i as int)),
        decreases ts@.len() - i,
    {
        proof {
            assert(full.skip(i as int).drop_first() =~~= full.skip(i + 1));
        }
        if i + 1 < ts.len() && is_ether_keyword(&ts[i]) && is_mac_shaped(&ts[i + 1]) {
            proof {
                assert(full.skip(i as int).first() == full[i as int]);
                assert(full.skip(i as int)[1] == full[i + 1]);
            }
            return Some(copy_chars(&ts[i + 1]));
        }
        i = i + 1;
    }
    proof {
        assert(full.skip(i as int).len() < 2);
    }
    None
}

/// Extracts the hardware address from BSD-style `ifconfig` output:
/// the first well-shaped token following an `ether` token.
pub fn parse_ifconfig_mac(output: &str) -> (r: Option<String>)
    ensures
        opt_chars(r) == ifconfig_mac(output@),
{
    let chars = str_chars(output);
    let lines = split_pieces(&chars, Cut::AtChar('\n'));
    let ghost ls = views_of(lines@);
    proof {
        assert(ls.skip(0) =~~= ls);
    }
    let mut i: usize = 0;
    while i < lines.len()
        invariant
            i <= lines@.len(),
            ls == views_of(lines@),
            ls == split_when(output@, sep_pred('\n')),
            scan_ether_lines(ls) == scan_ether_lines(ls.skip(i as int)),
        decreases lines@.len() - i,
    {
        proof {
            assert(ls.skip(i as int).drop_first() =~~= ls.skip(i + 1));
            assert(ls.skip(i as int).first() == ls[i as int]);
        }
        let toks = split_tokens(&lines[i]);
        if let Some(m) = find_ether_mac(&toks) {
            return Some(chars_to_string(&m));
        }
        i = i + 1;
    }
    None
}

/// Extracts the hardware address from the Linux per-interface
/// pseudo-file's content: the trimmed text, if non-empty.
pub fn parse_sysfs_mac(content: &str) -> (r: Option<String>)
    ensures
        opt_chars(r) == sysfs_mac(content@),
{
    let chars = str_chars(content);
    let t = trim_cut(&chars, Cut::AtSpace);
    if t.len() > 0 {
        Some(chars_to_string(&t))
    } else {
        None
    }
}

/// What one CSV line yields for `name`.
fn getmac_line_field(line: &Vec<char>, name: &Vec<char>) -> (r: Option<Vec<char>>)
    ensures
        match r {
            Some(m) => getmac_field(line@, name@) == Some(m@),
            None => getmac_field(line@, name@) is None,
        },
{
    if !contains_chars(line, name) {
        return None;
    }
    let ps = split_pieces(line, Cut::AtChar(','));
    proof {
        assert(views_of(ps@).len() == ps@.len());
    }
    if ps.len() < 2 {
        return None;
    }
    proof {
        assert(views_of(ps@)[1] == ps@[1]@);
    }
    let t1 = trim_cut(&ps[1], Cut::AtSpace);
    let f = trim_cut(&t1, Cut::AtChar('"'));
    if f.len() > 0 {
        Some(f)
    } else {
        None
    }
}

/// Extracts the hardware address for `interface_name` from the
/// MAC-listing utility's CSV output.
pub fn parse_getmac_csv(output: &str, interface_name: &str) -> (r: Option<String>)
    ensures
        opt_chars(r) == getmac_mac(output@, interface_name@),
{
    let chars = str_chars(output);
    let name = str_chars(interface_name);
    let lines = split_pieces(&chars, Cut::AtChar('\n'));
    let ghost ls = views_of(lines@);
    proof {
        assert(ls.skip(0) =~~= ls);
    }
    let mut i: usize = 0;
    while i < lines.len()
        invariant
            i <= lines@.len(),
            ls == views_of(lines@),
            ls == split_when(output@, sep_pred('\n')),
            name@ == interface_name@,
            scan_getmac_lines(ls, interface_name@) == scan_getmac_lines(
                ls.skip(i as int),
                interface_name@,
            ),
        decreases lines@.len() - i,
    {
        proof {
            assert(ls.skip(i as int).drop_first() =~~= ls.skip(i + 1));
            assert(ls.skip(i as int).first() == ls[i as int]);
        }
        if let Some(m) = getmac_line_field(&lines[i], &name) {
            return Some(chars_to_string(&m));
        }
        i = i + 1;
    }
    None
}

/// The characters of an optional borrowed string.
pub open spec fn opt_str_chars(o: Option<&str>) -> Option<Seq<char>> {
    match o {
        Some(s) => Some(s@),
        None => None,
    }
}

/// Resolves the hardware address for `interface_name` from the raw
/// text the platform facility produced (`None` when that facility
/// could not be run or read), following the platform's strategy.
/// Never fails: an unresolvable address is reported as `None`.
pub fn get_mac_address(platform: Platform, interface_name: &str, source: Option<&str>) -> (r:
    Option<String>)
    ensures
        opt_chars(r) == mac_lookup(platform, interface_name@, opt_str_chars(source)),
{
    match platform {
        Platform::MacOs => match source {
            Some(t) => parse_ifconfig_mac(t),
            None => None,
        },
        Platform::Linux => match source {
            Some(t) => parse_sysfs_mac(t),
            None => None,
        },
        Platform::Windows => match source {
            Some(t) => parse_getmac_csv(t, interface_name),
            None => None,
        },
        Platform::Other => None,
    }
}

pub proof fn lemma_scan_ether_tokens_shaped(ts: Seq<Seq<char>>)
    ensures
        scan_ether_tokens(ts) matches Some(m) ==> mac_shaped(m),
    decreases ts.len(),
{
    if ts.len() >= 2 {
        lemma_scan_ether_tokens_shaped(ts.drop_first());
    }
}

pub proof fn lemma_scan_ether_lines_shaped(ls: Seq<Seq<char>>)
    ensures
        scan_ether_lines(ls) matches Some(m) ==> mac_shaped(m),
    decreases ls.len(),
{
    if ls.len() > 0 {
        lemma_scan_ether_tokens_shaped(tokens_of(ls.first()));
        lemma_scan_ether_lines_shaped(ls.drop_first());
    }
}

/// Law: a hardware address resolved by the BSD-style strategy always
/// has the colon-separated shape: 17 characters, exactly 5 of them
/// colons.
pub proof fn lemma_ifconfig_mac_shaped(out: Seq<char>)
    ensures
        ifconfig_mac(out) matches Some(m) ==> m.len() == 17 && count_char(m, ':') == 5,
{
    lemma_scan_ether_lines_shaped(split_when(out, sep_pred('\n')));
}

} // verus!
