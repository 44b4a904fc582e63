//! Opacity injection for user shader layers.
//!
//! A shader layer is a WGSL fragment body supplied by the scene. When the
//! body is a plain expression body (it declares no entry point of its own and
//! ends in a `return`), a layer opacity below one is applied on the GPU by
//! rewriting the last `return` so that the returned color's alpha is scaled.
use vstd::prelude::*;
use vstd::string::StrSliceExecFns;
use vstd::string::StringExecFns;
use crate::float_bits::{f32_bits_le, f32_le, F32_ONE};

verus! {

broadcast use vstd::string::group_string_axioms;

/// `needle` occurs in `hay` starting at `at`.
pub open spec fn occurs_at(hay: Seq<char>, needle: Seq<char>, at: int) -> bool {
    0 <= at && at + needle.len() <= hay.len() && hay.subrange(at, at + needle.len()) == needle
}

pub open spec fn occurs_in(hay: Seq<char>, needle: Seq<char>) -> bool {
    exists|at: int| occurs_at(hay, needle, at)
}

/// The last occurrence of `needle` starting at or before `at`.
pub open spec fn last_occurrence_upto(hay: Seq<char>, needle: Seq<char>, at: int) -> Option<int>
    decreases at + 1,
{
    if at < 0 {
        None
    } else if occurs_at(hay, needle, at) {
        Some(at)
    } else {
        last_occurrence_upto(hay, needle, at - 1)
    }
}

/// The first position at or after `from` that holds `c`.
pub open spec fn first_char_from(hay: Seq<char>, c: char, from: int) -> Option<int>
    decreases hay.len() - from,
{
    if from < 0 || from >= hay.len() {
        None
    } else if hay[from] == c {
        Some(from)
    } else {
        first_char_from(hay, c, from + 1)
    }
}

/// Whether the opacity of a shader body can be applied by rewriting it: the
/// body declares no `@fragment` entry point and has a `return `.
pub open spec fn shader_body_rewritable(source: Seq<char>) -> bool {
    !occurs_in(source, "@fragment"@) && occurs_in(source, "return "@)
}

/// The body with the expression of its last `return ` bound to
/// `dioxuscut_color` and returned with alpha multiplied by the opacity
/// literal; unchanged when there is no `;` after that `return `.
pub open spec fn opacity_rewrite(source: Seq<char>, opacity_literal: Seq<char>) -> Seq<char> {
    match last_occurrence_upto(source, "return "@, source.len() - "return "@.len()) {
        None => source,
        Some(ret) => {
            let expr_start = ret + "return "@.len();
            match first_char_from(source, ';', expr_start) {
                None => source,
                Some(semi) => source.subrange(0, ret) + "let dioxuscut_color = "@ + source.subrange(
                    expr_start,
                    semi,
                ) + "; return vec4<f32>(dioxuscut_color.rgb, dioxuscut_color.a * "@
                    + opacity_literal + ");"@ + source.subrange(semi + 1, source.len() as int),
            }
        },
    }
}

/// The characters of `s`.
fn str_chars(s: &str) -> (v: Vec<char>)
    ensures
        v@ == s@,
{
    let mut v: Vec<char> = Vec::new();
    for c in it: s.chars()
        invariant
            v@ == it.seq().take(it.index() as int),
    {
        v.push(c);
    }
    v
}

fn occurs_at_exec(hay: &Vec<char>, needle: &Vec<char>, at: usize) -> (r: bool)
    ensures
        r == occurs_at(hay@, needle@, at as int),
{
    if at > hay.len() || needle.len() > hay.len() - at {
        return false;
    }
    let hay_len = hay.len();
    let mut k: usize = 0;
    while k < needle.len()
        invariant
            hay_len == hay@.len(),
            at + needle@.len() <= hay@.len(),
            k <= needle@.len(),
            forall|j: int| 0 <= j < k ==> hay@[at + j] == needle@[j],
        decreases needle@.len() - k,
    {
        if hay[at + k] != needle[k] {
            assert(hay@.subrange(at as int, at + needle@.len())[k as int] != needle@[k as int]);
            return false;
        }
        k = k + 1;
    }
    assert(hay@.subrange(at as int, at + needle@.len()) =~= needle@);
    true
}

fn occurs_in_exec(hay: &Vec<char>, needle: &Vec<char>) -> (r: bool)
    ensures
        r == occurs_in(hay@, needle@),
{
    let mut at: usize = 0;
    while at < hay.len()
        invariant
            at <= hay@.len(),
            forall|j: int| 0 <= j < at ==> !occurs_at(hay@, needle@, j),
        decreases hay@.len() - at,
    {
        if occurs_at_exec(hay, needle, at) {
            return true;
        }
        at = at + 1;
    }
    if occurs_at_exec(hay, needle, at) {
        return true;
    }
    assert forall|j: int| !occurs_at(hay@, needle@, j) by {
        if 0 <= j && j < at {
        }
    }
    false
}

/// Whether the layer opacity can be folded into the shader body itself.
pub fn shader_opacity_supported(source: &str) -> (r: bool)
    ensures
        r == shader_body_rewritable(source@),
{
    let hay = str_chars(source);
    let fragment = str_chars("@fragment");
    let ret = str_chars("return ");
    !occurs_in_exec(&hay, &fragment) && occurs_in_exec(&hay, &ret)
}


fn last_occurrence(hay: &Vec<char>, needle: &Vec<char>) -> (r: Option<usize>)
    ensures
        r matches Some(at) ==> last_occurrence_upto(hay@, needle@, hay@.len() - needle@.len())
            == Some(at as int),
        r is None ==> last_occurrence_upto(hay@, needle@, hay@.len() - needle@.len()) is None,
{
    if needle.len() > hay.len() {
        return None;
    }
    let ghost start: int = hay@.len() - needle@.len();
    let mut at: usize = hay.len() - needle.len();
    loop
        invariant
            0 <= at <= start,
            start == hay@.len() - needle@.len(),
            last_occurrence_upto(hay@, needle@, start) == last_occurrence_upto(
                hay@,
                needle@,
                at as int,
            ),
        decreases at,
    {
        if occurs_at_exec(hay, needle, at) {
            return Some(at);
        }
        if at == 0 {
            assert(last_occurrence_upto(hay@, needle@, -1) is None);
            return None;
        }
        at = at - 1;
    }
}

fn first_char(hay: &Vec<char>, c: char, from: usize) -> (r: Option<usize>)
    ensures
        r matches Some(at) ==> first_char_from(hay@, c, from as int) == Some(at as int) && at
            < hay@.len(),
        r is None ==> first_char_from(hay@, c, from as int) is None,
{
    let mut at: usize = from;
    while at < hay.len()
        invariant
            from <= at,
            first_char_from(hay@, c, from as int) == first_char_from(hay@, c, at as int),
        decreases hay@.len() - at,
    {
        if hay[at] == c {
            return Some(at);
        }
        at = at + 1;
    }
    None
}

/// Apply a layer opacity inside the shader body when it is below one and
/// the body can be rewritten; otherwise return the body unchanged. The
/// opacity is the `f32` bits; `opacity_literal` is the same value printed
/// with nine decimals, which is what the rewritten body multiplies by.
pub fn shader_source_with_opacity(source: &str, opacity: u32, opacity_literal: &str) -> (r: String)
    ensures
        r@ == if f32_bits_le(F32_ONE, opacity) || !shader_body_rewritable(source@) {
            source@
        } else {
            opacity_rewrite(source@, opacity_literal@)
        },
{
    if f32_le(F32_ONE, opacity) || !shader_opacity_supported(source) {
        return source.to_owned();
    }
    let hay = str_chars(source);
    let hay_len = hay.len();
    let ret = str_chars("return ");
    let return_start = match last_occurrence(&hay, &ret) {
        Some(at) => at,
        None => {
            return source.to_owned();
        },
    };
    proof {
        reveal_strlit("return ");
    }
    assert(occurs_at(hay@, ret@, return_start as int)) by {
        lemma_last_occurrence_occurs(hay@, ret@, hay@.len() - ret@.len());
    }
    let expression_start: usize = return_start + ret.len();
    let semicolon = match first_char(&hay, ';', expression_start) {
        Some(at) => at,
        None => {
            return source.to_owned();
        },
    };
    proof {
        lemma_first_char_bounds(hay@, ';', expression_start as int);
    }
    let mut out: String = source.substring_char(0, return_start).to_owned();
    out.append("let dioxuscut_color = ");
    out.append(source.substring_char(expression_start, semicolon));
    out.append("; return vec4<f32>(dioxuscut_color.rgb, dioxuscut_color.a * ");
    out.append(opacity_literal);
    out.append(");");
    out.append(source.substring_char(semicolon + 1, hay_len));
    out
}

proof fn lemma_last_occurrence_occurs(hay: Seq<char>, needle: Seq<char>, at: int)
    ensures
        last_occurrence_upto(hay, needle, at) matches Some(p) ==> occurs_at(hay, needle, p),
    decreases at + 1,
{
    if at >= 0 && !occurs_at(hay, needle, at) {
        lemma_last_occurrence_occurs(hay, needle, at - 1);
    }
}

proof fn lemma_first_char_bounds(hay: Seq<char>, c: char, from: int)
    ensures
        first_char_from(hay, c, from) matches Some(p) ==> from <= p < hay.len(),
    decreases hay.len() - from,
{
    if 0 <= from < hay.len() && hay[from] != c {
        lemma_first_char_bounds(hay, c, from + 1);
    }
}

} // verus!
