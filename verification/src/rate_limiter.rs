//! Parsing of per-key rate-limit overrides.
//!
//! Deployments supply custom keys and thresholds as a CSV list of
//! `key=value` elements; malformed elements are skipped. The rate limiter
//! itself lives with the host — only this parsing is the crate's logic.

use vstd::prelude::*;
use vstd::string::StrSliceExecFns;

use crate::strutil::{
    all_digits, digits_val, find_char, find_first, parse_u64, split_char, split_spec, trim_spaces,
    trim_spec,
};

verus! {

/// The override one CSV element names: the key before the first `=`,
/// trimmed, and its threshold after it, trimmed and read as a number.
/// An element without `=` or without a readable number names none.
pub open spec fn entry_of_elem(e: Seq<char>) -> Option<(Seq<char>, u64)> {
    match find_first(e, '=') {
        None => None,
        Some(i) => {
            let k = trim_spec(e.take(i));
            let v = trim_spec(e.skip(i + 1));
            if v.len() > 0 && all_digits(v) && digits_val(v) <= u64::MAX {
                Some((k, digits_val(v) as u64))
            } else {
                None
            }
        },
    }
}

/// The overrides the elements name, in order, skipping malformed ones.
pub open spec fn entries_of(elems: Seq<Seq<char>>) -> Seq<(Seq<char>, u64)>
    decreases elems.len(),
{
    if elems.len() == 0 {
        Seq::empty()
    } else {
        entries_of(elems.drop_last()) + (match entry_of_elem(elems.last()) {
            None => Seq::<(Seq<char>, u64)>::empty(),
            Some(kv) => seq![kv],
        })
    }
}

/// The overrides a CSV list names.
pub open spec fn custom_keys_spec(s: Seq<char>) -> Seq<(Seq<char>, u64)> {
    entries_of(split_spec(s, ','))
}

/// The key/threshold pairs as character sequences.
pub open spec fn pairs_view(s: Seq<(String, u64)>) -> Seq<(Seq<char>, u64)> {
    s.map_values(|p: (String, u64)| (p.0@, p.1))
}

/// Parse the CSV list of `key=value` rate-limit overrides. Malformed
/// elements are skipped; a missing or empty list yields no overrides.
/// Where one key occurs twice, the later entry is the one that counts.
pub fn format_custom_keys(custom_keys_csv: Option<&String>) -> (r: Vec<(String, u64)>)
    ensures
        (match custom_keys_csv {
            None => r@.len() == 0,
            Some(csv) => pairs_view(r@) == custom_keys_spec(csv@),
        }),
{
    let csv = match custom_keys_csv {
        None => {
            return Vec::new();
        },
        Some(csv) => csv,
    };
    let elems = split_char(csv.as_str(), ',');
    let ghost elem_views: Seq<Seq<char>> = elems.deep_view();
    let mut r: Vec<(String, u64)> = Vec::new();
    let n = elems.len();
    let mut i: usize = 0;
    while i < n
        invariant
            n == elems@.len(),
            elem_views == elems.deep_view(),
            custom_keys_spec(csv@) == entries_of(elem_views),
            i <= n,
            pairs_view(r@) == entries_of(elem_views.take(i as int)),
        decreases n - i,
    {
        let ghost before = pairs_view(r@);
        proof {
            assert(elem_views.take(i + 1).drop_last() =~= elem_views.take(i as int));
            assert(elem_views.take(i + 1).last() == elem_views[i as int]);
            assert(elem_views[i as int] == elems@[i as int]@);
        }
        let e = &elems[i];
        let elen = e.as_str().unicode_len();
        match find_char(e.as_str(), '=') {
            None => {},
            Some(eq_idx) => {
                proof {
                    crate::strutil::lemma_find_first_characterization(e@, '=');
                }
                let key_part = e.as_str().substring_char(0, eq_idx);
                let val_part = e.as_str().substring_char(eq_idx + 1, elen);
                let key = trim_spaces(key_part);
                let val = trim_spaces(val_part);
                proof {
                    assert(key_part@ == e@.take(eq_idx as int));
                    assert(val_part@ =~= e@.skip(eq_idx + 1));
                }
                match parse_u64(val.as_str()) {
                    Some(v) => {
                        r.push((key, v));
                        proof {
                            assert(pairs_view(r@) =~= before.push(
                                (trim_spec(e@.take(eq_idx as int)), v),
                            ));
                        }
                    },
                    None => {},
                }
            },
        }
        proof {
            assert(pairs_view(r@) =~= entries_of(elem_views.take(i + 1)));
        }
        i = i + 1;
    }
    proof {
        assert(elem_views.take(n as int) =~= elem_views);
    }
    r
}

} // verus!
