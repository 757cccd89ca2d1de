//! The text-processing side of the bandwidth probe: pulling attributes out of
//! the speed-test configuration and server-list markup. Fetching those
//! documents, the latency probing and the download timing live outside the
//! library; the parsing here is exact.

use crate::text::{find_str, lemma_find_characterizes, spec_find};
use vstd::prelude::*;
use vstd::string::{StrSliceExecFns, StringExecFns};

verus! {

/// The value of `attr="..."` in the element: the text between the first
/// occurrence of the attribute pattern and the next quote after it.
pub open spec fn spec_extract_attr(element: Seq<char>, attr: Seq<char>) -> Option<Seq<char>> {
    let pat = attr + "=\""@;
    match spec_find(element, pat) {
        None => None,
        Some(p) => {
            let start = p + pat.len();
            let rest = element.subrange(start, element.len() as int);
            match spec_find(rest, "\""@) {
                None => None,
                Some(q) => Some(rest.subrange(0, q)),
            }
        },
    }
}

/// Extracts an attribute value from a markup element.
pub fn extract_attr(element: &str, attr: &str) -> (r: Option<String>)
    ensures
        match r {
            Some(s) => spec_extract_attr(element@, attr@) == Some(s@),
            None => spec_extract_attr(element@, attr@) is None,
        },
{
    let pat = String::from_str(attr).concat("=\"");
    let p = match find_str(element, pat.as_str()) {
        Some(p) => p,
        None => {
            return None;
        },
    };
    proof {
        lemma_find_characterizes(element@, pat@);
    }
    let element_len = element.unicode_len();
    let start = p + pat.as_str().unicode_len();
    let rest = element.substring_char(start, element_len);
    let q = match find_str(rest, "\"") {
        Some(q) => q,
        None => {
            return None;
        },
    };
    proof {
        lemma_find_characterizes(rest@, "\""@);
    }
    Some(String::from_str(rest.substring_char(0, q)))
}

// ---------------------------------------------------------------------------
// Server-list scanning
// ---------------------------------------------------------------------------

/// One server of the list, attributes kept as listed; the latitude and
/// longitude stay text here, their numeric reading being the probe's
/// business.
pub struct ServerEntry {
    pub url: String,
    pub name: String,
    pub sponsor: String,
    pub lat: String,
    pub lon: String,
}

/// The `<server ` elements of the list markup, each cut at its terminator
/// (`/>` when present, else `>`) plus one character, as the scan reads them.
pub open spec fn spec_server_elements(text: Seq<char>) -> Seq<Seq<char>>
    decreases text.len(),
{
    if text.len() == 0 {
        seq![]
    } else {
        match spec_find(text, "<server "@) {
            None => seq![],
            Some(p) => {
                let tail = text.subrange(p, text.len() as int);
                let term = match spec_find(tail, "/>"@) {
                    Some(e) => Some(e),
                    None => spec_find(tail, ">"@),
                };
                match term {
                    None => seq![],
                    Some(e) => {
                        let stop = if 0 <= p && 0 <= e && p + e + 2 <= text.len() {
                            p + e + 2
                        } else {
                            text.len() as int
                        };
                        seq![text.subrange(p, stop)] + spec_server_elements(
                            text.subrange(stop, text.len() as int),
                        )
                    },
                }
            },
        }
    }
}

/// One element's server entry: present when it carries `url`, `lat` and
/// `lon`; name and sponsor default to empty.
pub open spec fn spec_parse_server(elem: Seq<char>) -> Option<
    (Seq<char>, Seq<char>, Seq<char>, Seq<char>, Seq<char>),
> {
    match (
        spec_extract_attr(elem, "url"@),
        spec_extract_attr(elem, "lat"@),
        spec_extract_attr(elem, "lon"@),
    ) {
        (Some(u), Some(la), Some(lo)) => Some(
            (
                u,
                match spec_extract_attr(elem, "name"@) {
                    Some(n) => n,
                    None => ""@,
                },
                match spec_extract_attr(elem, "sponsor"@) {
                    Some(s) => s,
                    None => ""@,
                },
                la,
                lo,
            ),
        ),
        _ => None,
    }
}

/// The entries of the parsed elements, in listing order.
pub open spec fn spec_server_entries(elems: Seq<Seq<char>>) -> Seq<
    (Seq<char>, Seq<char>, Seq<char>, Seq<char>, Seq<char>),
>
    decreases elems.len(),
{
    if elems.len() == 0 {
        seq![]
    } else {
        (match spec_parse_server(elems[0]) {
            Some(t) => seq![t],
            None => seq![],
        }) + spec_server_entries(elems.drop_first())
    }
}

/// The view of an entry vector.
pub open spec fn view_entries(l: Seq<ServerEntry>) -> Seq<
    (Seq<char>, Seq<char>, Seq<char>, Seq<char>, Seq<char>),
> {
    l.map_values(|e: ServerEntry| (e.url@, e.name@, e.sponsor@, e.lat@, e.lon@))
}

/// Parses one element into an entry, when it carries the required
/// attributes.
fn parse_server_element(element: &str) -> (r: Option<ServerEntry>)
    ensures
        match r {
            Some(e) => spec_parse_server(element@) == Some((e.url@, e.name@, e.sponsor@, e.lat@, e.lon@)),
            None => spec_parse_server(element@) is None,
        },
{
    let url = extract_attr(element, "url");
    let lat = extract_attr(element, "lat");
    let lon = extract_attr(element, "lon");
    match (url, lat, lon) {
        (Some(u), Some(la), Some(lo)) => {
            let name = match extract_attr(element, "name") {
                Some(n) => n,
                None => String::new(),
            };
            let sponsor = match extract_attr(element, "sponsor") {
                Some(s) => s,
                None => String::new(),
            };
            proof {
                reveal_strlit("");
                assert(""@ =~= Seq::<char>::empty());
            }
            Some(ServerEntry { url: u, name, sponsor, lat: la, lon: lo })
        },
        _ => None,
    }
}

/// Scans the server-list markup: every `<server ` element up to its
/// terminator, keeping each one that carries `url`, `lat` and `lon`.
pub fn parse_server_list(text: &str) -> (r: Vec<ServerEntry>)
    ensures
        view_entries(r@) == spec_server_entries(spec_server_elements(text@)),
{
    let ghost whole = spec_server_entries(spec_server_elements(text@));
    let mut out: Vec<ServerEntry> = Vec::new();
    let mut rest: &str = text;
    loop
        invariant_except_break
            whole == spec_server_entries(spec_server_elements(text@)),
            view_entries(out@) + spec_server_entries(spec_server_elements(rest@)) == whole,
        ensures
            view_entries(out@) == whole,
        decreases rest@.len(),
    {
        let rest_len = rest.unicode_len();
        if rest_len == 0 {
            proof {
                assert(view_entries(out@) + spec_server_entries(spec_server_elements(rest@))
                    =~= view_entries(out@));
            }
            break ;
        }
        let p = match find_str(rest, "<server ") {
            Some(p) => p,
            None => {
                proof {
                    assert(spec_server_elements(rest@) =~= Seq::<Seq<char>>::empty());
                    assert(view_entries(out@) + spec_server_entries(spec_server_elements(rest@))
                        =~= view_entries(out@));
                }
                break ;
            },
        };
        proof {
            lemma_find_characterizes(rest@, "<server "@);
        }
        let tail = rest.substring_char(p, rest_len);
        let e = match find_str(tail, "/>") {
            Some(e) => Some(e),
            None => find_str(tail, ">"),
        };
        let e = match e {
            Some(e) => e,
            None => {
                proof {
                    assert(spec_server_elements(rest@) =~= Seq::<Seq<char>>::empty());
                    assert(view_entries(out@) + spec_server_entries(spec_server_elements(rest@))
                        =~= view_entries(out@));
                }
                break ;
            },
        };
        proof {
            lemma_find_characterizes(tail@, "/>"@);
            lemma_find_characterizes(tail@, ">"@);
        }
        let avail = rest_len - p;
        let stop = if avail - e <= 2 {
            rest_len
        } else {
            p + e + 2
        };
        let ghost old_rest = rest@;
        let ghost old_out = out@;
        let element = rest.substring_char(p, stop);
        match parse_server_element(element) {
            Some(entry) => {
                out.push(entry);
            },
            None => {},
        }
        rest = rest.substring_char(stop, rest_len);
        proof {
            let elems = spec_server_elements(old_rest);
            assert(elems == seq![element@] + spec_server_elements(rest@));
            assert(elems[0] == element@);
            assert(elems.drop_first() =~= spec_server_elements(rest@));
            assert(spec_server_entries(elems) == (match spec_parse_server(element@) {
                Some(t) => seq![t],
                None => Seq::<(Seq<char>, Seq<char>, Seq<char>, Seq<char>, Seq<char>)>::empty(),
            }) + spec_server_entries(spec_server_elements(rest@)));
            match spec_parse_server(element@) {
                Some(t) => {
                    assert(view_entries(out@) =~= view_entries(old_out).push(t));
                    assert(view_entries(out@) + spec_server_entries(spec_server_elements(rest@))
                        =~= view_entries(old_out) + spec_server_entries(elems));
                },
                None => {
                    assert(view_entries(out@) + spec_server_entries(spec_server_elements(rest@))
                        =~= view_entries(old_out) + spec_server_entries(elems));
                },
            }
        }
    }
    out
}

} // verus!
