//! The model directory of a run: aliases, display names and variant axes of every model,
//! and how a model reference (an alias or a variant slug) resolves against it.
use vstd::prelude::*;

use crate::configuration::{
    slug, slug_parts, AxisView, ModelVariantAxis, ModelVariantParts, PartsView,
};
use crate::text::{lower, views};

verus! {

/// The models a run can address.
pub struct ModelDirectory {
    /// Every alias (also lowercased, and every variant slug) to its model's base key.
    pub aliases: vstd::hash_map::StringHashMap<String>,
    pub display_names: vstd::hash_map::StringHashMap<String>,
    pub variants: vstd::hash_map::StringHashMap<ModelVariantAxis>,
}

/// The text view of a map of texts.
pub open spec fn text_map(m: Map<Seq<char>, String>) -> Map<Seq<char>, Seq<char>> {
    m.map_values(|s: String| s@)
}

/// The view of a map of axes.
pub open spec fn axis_map(m: Map<Seq<char>, ModelVariantAxis>) -> Map<Seq<char>, AxisView> {
    m.map_values(|a: ModelVariantAxis| a@)
}

/// The base key a reference resolves to: its alias, else its lowercase alias, else itself.
pub open spec fn resolved_base(aliases: Map<Seq<char>, Seq<char>>, key: Seq<char>) -> Seq<char> {
    if aliases.contains_key(key) {
        aliases[key]
    } else if aliases.contains_key(lower(key)) {
        aliases[lower(key)]
    } else {
        key
    }
}

/// The variant a reference names on its base model's axis (also tried lowercased).
pub open spec fn resolved_parts(
    variants: Map<Seq<char>, AxisView>,
    base: Seq<char>,
    key: Seq<char>,
) -> Option<PartsView> {
    if variants.contains_key(base) {
        match slug_parts(variants[base], base, key) {
            Some(p) => Some(p),
            None => slug_parts(variants[base], base, lower(key)),
        }
    } else {
        None
    }
}

/// Inserting into a map of texts inserts the text's view.
proof fn lemma_text_map_insert(m: Map<Seq<char>, String>, k: Seq<char>, v: String)
    ensures
        text_map(m.insert(k, v)) == text_map(m).insert(k, v@),
{
    assert(text_map(m.insert(k, v)) =~= text_map(m).insert(k, v@));
}

/// Inserting into a map of axes inserts the axis's view.
proof fn lemma_axis_map_insert(m: Map<Seq<char>, ModelVariantAxis>, k: Seq<char>, v: ModelVariantAxis)
    ensures
        axis_map(m.insert(k, v)) == axis_map(m).insert(k, v@),
{
    assert(axis_map(m.insert(k, v)) =~= axis_map(m).insert(k, v@));
}

/// A copy of an axis.
pub fn copy_axis(a: &ModelVariantAxis) -> (r: ModelVariantAxis)
    ensures
        r@ == a@,
{
    ModelVariantAxis {
        context_options: crate::text::copy_strings(&a.context_options),
        effort_options: crate::text::copy_strings(&a.effort_options),
    }
}

impl ModelDirectory {
    /// An empty directory.
    pub fn new() -> (r: ModelDirectory)
        ensures
            r.aliases@ == Map::<Seq<char>, String>::empty(),
            r.display_names@ == Map::<Seq<char>, String>::empty(),
            r.variants@ == Map::<Seq<char>, ModelVariantAxis>::empty(),
    {
        ModelDirectory {
            aliases: vstd::hash_map::StringHashMap::new(),
            display_names: vstd::hash_map::StringHashMap::new(),
            variants: vstd::hash_map::StringHashMap::new(),
        }
    }

    /// Resolves a reference to its base key and the variant it names, if any (see
    /// [`resolved_base`] and [`resolved_parts`]).
    pub fn resolve(&self, key: &str) -> (r: (String, Option<ModelVariantParts>))
        ensures
            r.0@ == resolved_base(text_map(self.aliases@), key@),
            match r.1 {
                Some(p) => resolved_parts(axis_map(self.variants@), r.0@, key@) == Some(p@),
                None => resolved_parts(axis_map(self.variants@), r.0@, key@) is None,
            },
    {
        let lowered = crate::text::to_lower(key);
        let base = match self.aliases.get(key) {
            Some(b) => crate::text::copy(b.as_str()),
            None => match self.aliases.get(lowered.as_str()) {
                Some(b) => crate::text::copy(b.as_str()),
                None => crate::text::copy(key),
            },
        };
        let parts = match self.variants.get(base.as_str()) {
            Some(axis) => match axis.parse_slug(base.as_str(), key) {
                Some(p) => Some(p),
                None => axis.parse_slug(base.as_str(), lowered.as_str()),
            },
            None => None,
        };
        (base, parts)
    }
}

/// The alias keys of a model: each alias, then its lowercase form.
pub open spec fn alias_keys(aliases: Seq<Seq<char>>) -> Seq<Seq<char>> {
    Seq::new(
        (aliases.len() * 2) as nat,
        |k: int|
            if k % 2 == 0 {
                aliases[k / 2]
            } else {
                lower(aliases[k / 2])
            },
    )
}

/// The number of effort positions of the variant grid: the efforts, or one without them.
pub open spec fn effort_count(a: AxisView) -> int {
    if a.efforts.len() == 0 {
        1
    } else {
        a.efforts.len() as int
    }
}

/// The variant at position `j` of an axis's grid: contexts outermost, then efforts (none
/// without an effort axis), then not fast and fast.
pub open spec fn grid_parts(a: AxisView, j: int) -> PartsView {
    let per = effort_count(a) * 2;
    PartsView {
        context: a.contexts[j / per],
        effort: if a.efforts.len() == 0 {
            None
        } else {
            Some(a.efforts[(j % per) / 2])
        },
        fast: j % 2 == 1,
    }
}

/// The slug keys of a model: each variant slug of its grid, then its lowercase form.
pub open spec fn slug_keys(a: AxisView, key: Seq<char>) -> Seq<Seq<char>> {
    Seq::new(
        (a.contexts.len() * effort_count(a) * 4) as nat,
        |k: int|
            if k % 2 == 0 {
                slug(a, key, grid_parts(a, k / 2))
            } else {
                lower(slug(a, key, grid_parts(a, k / 2)))
            },
    )
}

/// `m` with each of `keys`, in order, pointing to `v`.
pub open spec fn with_all(m: Map<Seq<char>, Seq<char>>, keys: Seq<Seq<char>>, v: Seq<char>) -> Map<
    Seq<char>,
    Seq<char>,
>
    decreases keys.len(),
{
    if keys.len() == 0 {
        m
    } else {
        with_all(m, keys.drop_last(), v).insert(keys.last(), v)
    }
}

/// One more key of a list.
proof fn lemma_with_all_step(m: Map<Seq<char>, Seq<char>>, keys: Seq<Seq<char>>, v: Seq<char>, c: int)
    requires
        0 <= c < keys.len(),
    ensures
        with_all(m, keys.take(c + 1), v) == with_all(m, keys.take(c), v).insert(keys[c], v),
{
    assert(keys.take(c + 1).drop_last() == keys.take(c));
    assert(keys.take(c + 1).last() == keys[c]);
}

/// Position `(ci * 2a + 2ei + f) * 2 + l` of the slug keys decomposes into context `ci`,
/// effort `ei`, fast `f` and lowercase `l`.
proof fn lemma_key_index(ci: int, ei: int, f: int, l: int, a: int)
    requires
        0 <= ci,
        0 <= ei < a,
        0 <= f < 2,
        0 <= l < 2,
    ensures
        ((ci * (a * 2) + ei * 2 + f) * 2 + l) / 2 == ci * (a * 2) + ei * 2 + f,
        ((ci * (a * 2) + ei * 2 + f) * 2 + l) % 2 == l,
        (ci * (a * 2) + ei * 2 + f) / (a * 2) == ci,
        ((ci * (a * 2) + ei * 2 + f) % (a * 2)) / 2 == ei,
        (ci * (a * 2) + ei * 2 + f) % 2 == f,
{
    let j = ci * (a * 2) + ei * 2 + f;
    vstd::arithmetic::div_mod::lemma_fundamental_div_mod_converse(j * 2 + l, 2, j, l);
    vstd::arithmetic::div_mod::lemma_fundamental_div_mod_converse(j, a * 2, ci, ei * 2 + f);
    vstd::arithmetic::div_mod::lemma_fundamental_div_mod_converse(ei * 2 + f, 2, ei, f);
    assert(ci * (a * 2) == (ci * a) * 2) by (nonlinear_arith);
    vstd::arithmetic::div_mod::lemma_fundamental_div_mod_converse(j, 2, ci * a + ei, f);
}

/// Inserts one alias and its lowercase form.
fn insert_alias(
    directory: &mut ModelDirectory,
    alias: &str,
    key: &str,
    Ghost(keys): Ghost<Seq<Seq<char>>>,
    Ghost(c): Ghost<int>,
    Ghost(base): Ghost<Map<Seq<char>, Seq<char>>>,
)
    requires
        0 <= c,
        c + 2 <= keys.len(),
        keys[c] == alias@,
        keys[c + 1] == lower(alias@),
        text_map(old(directory).aliases@) == with_all(base, keys.take(c), key@),
    ensures
        text_map(final(directory).aliases@) == with_all(base, keys.take(c + 2), key@),
        final(directory).display_names@ == old(directory).display_names@,
        final(directory).variants@ == old(directory).variants@,
{
    let ghost before = directory.aliases@;
    directory.aliases.insert(crate::text::copy(alias), crate::text::copy(key));
    proof {
        lemma_text_map_insert(before, alias@, directory.aliases@[alias@]);
        lemma_with_all_step(base, keys, key@, c);
    }
    let ghost middle = directory.aliases@;
    directory.aliases.insert(crate::text::to_lower(alias), crate::text::copy(key));
    proof {
        lemma_text_map_insert(middle, lower(alias@), directory.aliases@[lower(alias@)]);
        lemma_with_all_step(base, keys, key@, c + 1);
    }
}

/// Registers a model under its base key: its display name, its aliases (each also
/// lowercased), every variant slug of its axis (also lowercased) as aliases of the base key,
/// and its axis.
pub fn insert_directory_model(
    directory: &mut ModelDirectory,
    key: &str,
    display_name: &str,
    aliases: &[&str],
    axis: ModelVariantAxis,
)
    ensures
        text_map(final(directory).display_names@) == text_map(old(directory).display_names@).insert(
            key@,
            display_name@,
        ),
        text_map(final(directory).aliases@) == with_all(
            text_map(old(directory).aliases@),
            alias_keys(aliases@.map_values(|a: &str| a@)) + slug_keys(axis@, key@),
            key@,
        ),
        axis_map(final(directory).variants@) == axis_map(old(directory).variants@).insert(
            key@,
            axis@,
        ),
{
    let ghost base = text_map(directory.aliases@);
    let ghost names = aliases@.map_values(|a: &str| a@);
    let ghost keys = alias_keys(names) + slug_keys(axis@, key@);
    let ghost old_names = directory.display_names@;
    let ghost v0 = directory.variants@;
    directory.display_names.insert(crate::text::copy(key), crate::text::copy(display_name));
    proof {
        lemma_text_map_insert(old_names, key@, directory.display_names@[key@]);
    }
    let ghost names_after = text_map(directory.display_names@);
    assert(keys.take(0) == Seq::<Seq<char>>::empty());
    let mut i: usize = 0;
    while i < aliases.len()
        invariant
            i <= aliases.len(),
            names == aliases@.map_values(|a: &str| a@),
            keys == alias_keys(names) + slug_keys(axis@, key@),
            text_map(directory.aliases@) == with_all(base, keys.take(2 * i), key@),
            text_map(directory.display_names@) == names_after,
            directory.variants@ == v0,
        decreases aliases.len() - i,
    {
        assert(keys[2 * i as int] == aliases@[i as int]@);
        assert(keys[2 * i + 1] == lower(aliases@[i as int]@));
        insert_alias(directory, aliases[i], key, Ghost(keys), Ghost(2 * i as int), Ghost(base));
        i = i + 1;
    }
    let a: usize = if axis.effort_options.len() == 0 {
        1
    } else {
        axis.effort_options.len()
    };
    let ghost start = 2 * aliases@.len();
    assert(a == effort_count(axis@));
    let mut ci: usize = 0;
    while ci < axis.context_options.len()
        invariant
            ci <= axis.context_options.len(),
            a == effort_count(axis@),
            a >= 1,
            start == 2 * aliases@.len(),
            names == aliases@.map_values(|a: &str| a@),
            keys == alias_keys(names) + slug_keys(axis@, key@),
            text_map(directory.aliases@) == with_all(base, keys.take(start + ci * (a * 4)), key@),
            text_map(directory.display_names@) == names_after,
            directory.variants@ == v0,
        decreases axis.context_options.len() - ci,
    {
        let mut ei: usize = 0;
        while ei < a
            invariant
                ci < axis.context_options.len(),
                ei <= a,
                a == effort_count(axis@),
                a >= 1,
                start == 2 * aliases@.len(),
                names == aliases@.map_values(|a: &str| a@),
                keys == alias_keys(names) + slug_keys(axis@, key@),
                text_map(directory.aliases@) == with_all(
                    base,
                    keys.take(start + ci * (a * 4) + ei * 4),
                    key@,
                ),
                text_map(directory.display_names@) == names_after,
            directory.variants@ == v0,
            decreases a - ei,
        {
            let effort = if axis.effort_options.len() == 0 {
                None
            } else {
                Some(crate::text::copy(axis.effort_options[ei].as_str()))
            };
            assert(ci * (a * 4) + ei * 4 + 4 <= axis@.contexts.len() * a * 4) by (nonlinear_arith)
                requires
                    ci < axis@.contexts.len(),
                    ei < a,
            ;
            assert(slug_keys(axis@, key@).len() == axis@.contexts.len() * a * 4);
            let mut f: usize = 0;
            while f < 2
                invariant
                    ci < axis.context_options.len(),
                    ei < a,
                    f <= 2,
                    a == effort_count(axis@),
                    start == 2 * aliases@.len(),
                    names == aliases@.map_values(|a: &str| a@),
                    keys == alias_keys(names) + slug_keys(axis@, key@),
                    ci * (a * 4) + ei * 4 + 4 <= slug_keys(axis@, key@).len(),
                    match effort {
                        Some(e) => axis@.efforts.len() > 0 && e@ == axis@.efforts[ei as int],
                        None => axis@.efforts.len() == 0,
                    },
                    text_map(directory.aliases@) == with_all(
                        base,
                        keys.take(start + ci * (a * 4) + ei * 4 + f * 2),
                        key@,
                    ),
                    text_map(directory.display_names@) == names_after,
            directory.variants@ == v0,
                decreases 2 - f,
            {
                let parts = ModelVariantParts {
                    context: crate::text::copy(axis.context_options[ci].as_str()),
                    effort: match &effort {
                        Some(e) => Some(crate::text::copy(e.as_str())),
                        None => None,
                    },
                    fast: f == 1,
                };
                let s = axis.bake_slug(key, &parts);
                proof {
                    let j = ci * (a * 2) + ei * 2 + f;
                    lemma_key_index(ci as int, ei as int, f as int, 0, a as int);
                    lemma_key_index(ci as int, ei as int, f as int, 1, a as int);
                    assert(j * 2 == ci * (a * 4) + ei * 4 + f * 2) by (nonlinear_arith)
                        requires
                            j == ci * (a * 2) + ei * 2 + f,
                    ;
                    assert(parts@ == grid_parts(axis@, j));
                    assert(keys[start + j * 2] == slug_keys(axis@, key@)[j * 2]);
                    assert(keys[start + j * 2 + 1] == slug_keys(axis@, key@)[j * 2 + 1]);
                }
                insert_alias(
                    directory,
                    s.as_str(),
                    key,
                    Ghost(keys),
                    Ghost(start + ci * (a * 4) + ei * 4 + f * 2),
                    Ghost(base),
                );
                f = f + 1;
            }
            ei = ei + 1;
        }
        assert((ci + 1) * (a * 4) == ci * (a * 4) + a * 4) by (nonlinear_arith);
        ci = ci + 1;
    }
    assert(keys.take(keys.len() as int) == keys);
    assert(start + axis@.contexts.len() * (a * 4) == keys.len()) by (nonlinear_arith)
        requires
            keys.len() == start + axis@.contexts.len() * a * 4,
    ;
    let ghost old_variants = directory.variants@;
    let k = crate::text::copy(key);
    directory.variants.insert(k, axis);
    proof {
        lemma_axis_map_insert(old_variants, key@, directory.variants@[key@]);
    }
}

} // verus!
