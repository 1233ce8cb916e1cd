//! Names of the post-processing effects a render applies, with the
//! shorthands that stand for several of them.
use vstd::prelude::*;
use vstd::string::*;
use crate::subtitle::string_seqs;

verus! {

/// The effects that the shorthand `crt` stands for, in order.
pub open spec fn crt_chain() -> Seq<Seq<char>> {
    seq![
        "crt_scanlines"@,
        "chromatic_aberration"@,
        "vignette"@,
        "film_grain"@,
        "color_grading"@,
    ]
}

/// The effects that the shorthand `all` stands for, in order.
pub open spec fn all_chain() -> Seq<Seq<char>> {
    seq!["bloom"@] + crt_chain()
}

/// What one requested effect name stands for.
pub open spec fn expand_one(e: Seq<char>) -> Seq<Seq<char>> {
    if e == "crt"@ {
        crt_chain()
    } else if e == "all"@ {
        all_chain()
    } else {
        seq![e]
    }
}

/// The expansions of all names, concatenated in order.
pub open spec fn expand_all(effects: Seq<Seq<char>>) -> Seq<Seq<char>>
    decreases effects.len(),
{
    if effects.len() == 0 {
        seq![]
    } else {
        expand_all(effects.drop_last()) + expand_one(effects.last())
    }
}

/// The effect list for the requested names: empty if any name is `none`,
/// else each name replaced by what it stands for.
pub open spec fn spec_expand_effects(effects: Seq<Seq<char>>) -> Seq<Seq<char>> {
    if exists|i: int| 0 <= i < effects.len() && effects[i] == "none"@ {
        seq![]
    } else {
        expand_all(effects)
    }
}

/// Appends a copy of `name`.
fn push_name(out: &mut Vec<String>, name: &str)
    ensures
        string_seqs(final(out)@) == string_seqs(old(out)@).push(name@),
{
    let ghost before = out@;
    out.push(String::from_str(name));
    proof {
        assert(string_seqs(out@) =~= string_seqs(before).push(name@));
    }
}

/// Expands the requested effect names into the chain of effects to run.
pub fn expand_effects(effects: &Vec<String>) -> (r: Vec<String>)
    ensures
        string_seqs(r@) == spec_expand_effects(string_seqs(effects@)),
{
    let ghost names = string_seqs(effects@);
    let none = String::from_str("none");
    let crt = String::from_str("crt");
    let all = String::from_str("all");
    let mut out: Vec<String> = Vec::new();
    let mut i: usize = 0;
    while i < effects.len()
        invariant
            i <= effects@.len(),
            names == string_seqs(effects@),
            none@ == "none"@,
            crt@ == "crt"@,
            all@ == "all"@,
            forall|k: int| 0 <= k < i ==> names[k] != "none"@,
            string_seqs(out@) == expand_all(names.subrange(0, i as int)),
        decreases effects@.len() - i,
    {
        proof {
            assert(names.subrange(0, i + 1).drop_last() =~= names.subrange(0, i as int));
        }
        let e = &effects[i];
        if *e == none {
            let empty: Vec<String> = Vec::new();
            proof {
                assert(names[i as int] == "none"@);
                assert(string_seqs(empty@) =~= spec_expand_effects(names));
            }
            return empty;
        }
        let ghost before = string_seqs(out@);
        if *e == crt {
            push_name(&mut out, "crt_scanlines");
            push_name(&mut out, "chromatic_aberration");
            push_name(&mut out, "vignette");
            push_name(&mut out, "film_grain");
            push_name(&mut out, "color_grading");
        } else if *e == all {
            push_name(&mut out, "bloom");
            push_name(&mut out, "crt_scanlines");
            push_name(&mut out, "chromatic_aberration");
            push_name(&mut out, "vignette");
            push_name(&mut out, "film_grain");
            push_name(&mut out, "color_grading");
        } else {
            let ghost old_out = out@;
            out.push(e.clone());
            proof {
                assert(string_seqs(out@) =~= string_seqs(old_out).push(e@));
            }
        }
        proof {
            assert(string_seqs(out@) =~= before + expand_one(names[i as int]));
        }
        i = i + 1;
    }
    proof {
        assert(names.subrange(0, effects@.len() as int) =~= names);
    }
    out
}

} // verus!
