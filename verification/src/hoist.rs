//! Inline-hoister support: the build context (type registry, dedup cache,
//! allocated names), the hoisting test, and derivation of unique names for
//! hoisted types.

use vstd::prelude::*;

use crate::document::{Schema, SchemaType, TypeSet};
use crate::ir::{StableId, TypeDecl, TypeOrigin, TypeRegistry};
use crate::naming::{spec_pascal, CanonicalName};
use crate::strutil::{push_char, push_dec, spec_dec, spec_digit, str_eq};

verus! {

/// Whether an inline schema must be promoted to a named type: it is
/// object-typed (explicitly, or implicitly by carrying properties) and has at
/// least one constraint worth a declaration.  A bare `{"type":"object"}` is
/// never hoisted.
pub open spec fn spec_should_hoist(s: Schema) -> bool {
    if s.schema_type matches Some(TypeSet::One(SchemaType::Object)) {
        s.properties@.len() > 0 || s.additional_properties is Some || s.required@.len() > 0
    } else {
        s.schema_type is None && s.properties@.len() > 0
    }
}

pub fn should_hoist_schema(s: &Schema) -> (r: bool)
    ensures
        r == spec_should_hoist(*s),
{
    match &s.schema_type {
        Some(TypeSet::One(SchemaType::Object)) => {
            s.properties.len() > 0 || matches!(s.additional_properties, Some(_))
                || s.required.len() > 0
        },
        None => s.properties.len() > 0,
        _ => false,
    }
}

/// Whether one of the strings reads `n`.
pub open spec fn name_in(names: Seq<String>, n: Seq<char>) -> bool {
    exists|i: int| 0 <= i < names.len() && names[i]@ == n
}

/// Spec-level lookup in the dedup cache: the id most recently recorded for
/// a key (an insert of an existing key supersedes the older entry).
pub open spec fn cache_find(cache: Seq<(String, StableId)>, k: Seq<char>) -> Option<Seq<char>>
    decreases cache.len(),
{
    if cache.len() == 0 {
        Option::None
    } else if cache.last().0@ == k {
        Option::Some(cache.last().1@)
    } else {
        cache_find(cache.drop_last(), k)
    }
}

/// Appending a cache entry makes its key resolve to it and leaves every
/// other key's lookup as it was.
pub proof fn lemma_cache_find_push(cache: Seq<(String, StableId)>, e: (String, StableId), k: Seq<
    char,
>)
    ensures
        e.0@ == k ==> cache_find(cache.push(e), k) == Some(e.1@),
        e.0@ != k ==> cache_find(cache.push(e), k) == cache_find(cache, k),
{
    assert(cache.push(e).last() == e);
    assert(cache.push(e).drop_last() =~= cache);
}

/// How many registered declarations were hoisted.
pub open spec fn count_hoisted(s: Seq<TypeDecl>) -> nat
    decreases s.len(),
{
    if s.len() == 0 {
        0
    } else {
        (if s[0].origin == Some(TypeOrigin::Hoisted) {
            1nat
        } else {
            0nat
        }) + count_hoisted(s.drop_first())
    }
}

pub proof fn lemma_count_hoisted_push(s: Seq<TypeDecl>, d: TypeDecl)
    ensures
        count_hoisted(s.push(d)) == count_hoisted(s) + if d.origin == Some(TypeOrigin::Hoisted) {
            1nat
        } else {
            0nat
        },
    decreases s.len(),
{
    if s.len() == 0 {
        assert(s.push(d)[0] == d);
        assert(s.push(d).drop_first() =~= Seq::<TypeDecl>::empty());
        assert(count_hoisted(Seq::<TypeDecl>::empty()) == 0);
    } else {
        assert(s.push(d)[0] == s[0]);
        assert(s.push(d).drop_first() =~= s.drop_first().push(d));
        lemma_count_hoisted_push(s.drop_first(), d);
    }
}

/// The mutable state threaded through the whole conversion: the registry of
/// produced types, the structural-key dedup cache, the set of already
/// allocated type names, and the operation whose pieces are being converted.
pub struct BuildContext {
    pub types: TypeRegistry,
    pub inline_cache: Vec<(String, StableId)>,
    pub used_type_names: Vec<String>,
    pub current_operation_id: Option<String>,
}

impl BuildContext {
    /// The context's own well-formedness: ids are unique and marked with an
    /// origin, every id is an allocated name, and the dedup cache holds
    /// exactly one entry per hoisted declaration.
    pub open spec fn inv(self) -> bool {
        &&& self.types.wf()
        &&& forall|i: int| 0 <= i < self.types@.len() ==> (#[trigger] self.types@[i].origin)
            is Some
        &&& count_hoisted(self.types@) == self.inline_cache@.len()
        &&& forall|i: int|
            0 <= i < self.types@.len() ==> name_in(
                self.used_type_names@,
                #[trigger] self.types@[i].id@,
            )
    }

    /// What every conversion step preserves: the registry, the cache and the
    /// allocated names only grow, everything added to the registry mid-walk
    /// is a hoisted type, and the naming context is restored.
    pub open spec fn extends(old: BuildContext, new: BuildContext) -> bool {
        &&& old.types@.is_prefix_of(new.types@)
        &&& forall|i: int|
            old.types@.len() <= i < new.types@.len() ==> (#[trigger] new.types@[i].origin)
                == Some(TypeOrigin::Hoisted)
        &&& forall|i: int|
            old.types@.len() <= i < new.types@.len() ==> !name_in(
                old.used_type_names@,
                (#[trigger] new.types@[i]).id@,
            )
        &&& old.inline_cache@.is_prefix_of(new.inline_cache@)
        &&& old.used_type_names@.is_prefix_of(new.used_type_names@)
        &&& new.current_operation_id == old.current_operation_id
    }

    /// `extends` is reflexive and transitive across conversion steps.
    pub proof fn lemma_extends_trans(a: BuildContext, b: BuildContext, c: BuildContext)
        requires
            BuildContext::extends(a, b),
            BuildContext::extends(b, c),
        ensures
            BuildContext::extends(a, c),
    {
        assert forall|i: int|
            a.types@.len() <= i < c.types@.len() implies (#[trigger] c.types@[i].origin) == Some(
            TypeOrigin::Hoisted,
        ) by {
            if i < b.types@.len() {
                assert(c.types@[i] == b.types@[i]);
            }
        }
        assert forall|i: int|
            a.types@.len() <= i < c.types@.len() implies !name_in(
            a.used_type_names@,
            (#[trigger] c.types@[i]).id@,
        ) by {
            if i < b.types@.len() {
                assert(c.types@[i] == b.types@[i]);
                assert(!name_in(a.used_type_names@, b.types@[i].id@));
            } else {
                assert(!name_in(b.used_type_names@, c.types@[i].id@));
                if name_in(a.used_type_names@, c.types@[i].id@) {
                    let j = choose|j: int|
                        0 <= j < a.used_type_names@.len() && a.used_type_names@[j]@
                            == c.types@[i].id@;
                    assert(b.used_type_names@[j] == a.used_type_names@[j]);
                    assert(name_in(b.used_type_names@, c.types@[i].id@));
                }
            }
        }
    }

    pub fn new() -> (r: BuildContext)
        ensures
            r.inv(),
            r.types@ =~= Seq::<TypeDecl>::empty(),
            r.inline_cache@ =~= Seq::<(String, StableId)>::empty(),
            r.used_type_names@ =~= Seq::<String>::empty(),
            r.current_operation_id is None,
    {
        BuildContext {
            types: TypeRegistry::new(),
            inline_cache: Vec::new(),
            used_type_names: Vec::new(),
            current_operation_id: None,
        }
    }

    /// Marks a name as allocated.
    pub fn reserve_name(&mut self, name: String)
        ensures
            final(self).used_type_names@ == old(self).used_type_names@.push(name),
            final(self).types == old(self).types,
            final(self).inline_cache == old(self).inline_cache,
            final(self).current_operation_id == old(self).current_operation_id,
            old(self).inv() ==> final(self).inv(),
    {
        proof {
            if old(self).inv() {
                assert forall|i: int| 0 <= i < self.types@.len() implies name_in(
                    self.used_type_names@.push(name),
                    #[trigger] self.types@[i].id@,
                ) by {
                    let j = choose|j: int|
                        0 <= j < self.used_type_names@.len() && self.used_type_names@[j]@
                            == self.types@[i].id@;
                    assert(self.used_type_names@.push(name)[j]@ == self.types@[i].id@);
                }
            }
        }
        self.used_type_names.push(name);
    }

    /// Registers a declaration under a fresh id and allocates its name.
    pub fn add_type(&mut self, decl: TypeDecl)
        requires
            !old(self).types.spec_contains(decl.id@),
            decl.origin is Some,
        ensures
            final(self).types@ == old(self).types@.push(decl),
            final(self).used_type_names@ == old(self).used_type_names@.push(decl.id.0),
            final(self).inline_cache == old(self).inline_cache,
            final(self).current_operation_id == old(self).current_operation_id,
            old(self).inv() && decl.origin != Some(TypeOrigin::Hoisted) ==> final(self).inv(),
            old(self).inv() && decl.origin == Some(TypeOrigin::Hoisted) ==> {
                &&& final(self).types.wf()
                &&& count_hoisted(final(self).types@) == final(self).inline_cache@.len() + 1
                &&& forall|i: int|
                    0 <= i < final(self).types@.len() ==> (#[trigger] final(self).types@[i].origin)
                        is Some
                &&& forall|i: int|
                    0 <= i < final(self).types@.len() ==> name_in(
                        final(self).used_type_names@,
                        #[trigger] final(self).types@[i].id@,
                    )
            },
    {
        let name = decl.id.0.clone();
        let ghost old_types = self.types@;
        let ghost old_used = self.used_type_names@;
        let ghost d = decl;
        self.types.insert(decl);
        self.used_type_names.push(name);
        proof {
            lemma_count_hoisted_push(old_types, d);
            if old(self).inv() {
                assert forall|i: int| 0 <= i < self.types@.len() implies name_in(
                    self.used_type_names@,
                    #[trigger] self.types@[i].id@,
                ) by {
                    if i < old_types.len() {
                        let j = choose|j: int|
                            0 <= j < old_used.len() && old_used[j]@ == old_types[i].id@;
                        assert(self.used_type_names@[j]@ == self.types@[i].id@);
                    } else {
                        assert(self.types@[i] == d);
                        assert(self.used_type_names@[old_used.len() as int]@ == d.id@);
                    }
                }
            }
        }
    }

    /// Records a hoisted declaration's structural key in the dedup cache.
    pub fn cache_insert(&mut self, k: String, id: StableId)
        ensures
            final(self).inline_cache@ == old(self).inline_cache@.push((k, id)),
            final(self).types == old(self).types,
            final(self).used_type_names == old(self).used_type_names,
            final(self).current_operation_id == old(self).current_operation_id,
    {
        self.inline_cache.push((k, id));
    }

    /// Looks a structural key up in the dedup cache, latest entry first.
    #[verifier::loop_isolation(false)]
    pub fn cache_get(&self, k: &str) -> (r: Option<StableId>)
        ensures
            match r {
                Some(id) => cache_find(self.inline_cache@, k@) == Some(id@),
                None => cache_find(self.inline_cache@, k@) is None,
            },
    {
        let n = self.inline_cache.len();
        let mut i: usize = n;
        proof {
            assert(self.inline_cache@.take(n as int) =~= self.inline_cache@);
        }
        while i > 0
            invariant
                i <= n,
                cache_find(self.inline_cache@, k@) == cache_find(
                    self.inline_cache@.take(i as int),
                    k@,
                ),
            decreases i,
        {
            proof {
                assert(self.inline_cache@.take(i as int).last() == self.inline_cache@[i - 1]);
                assert(self.inline_cache@.take(i as int).drop_last() =~= self.inline_cache@.take(
                    i - 1,
                ));
            }
            if str_eq(self.inline_cache[i - 1].0.as_str(), k) {
                return Some(self.inline_cache[i - 1].1.clone());
            }
            i = i - 1;
        }
        proof {
            assert(self.inline_cache@.take(0).len() == 0);
        }
        None
    }
}

/// Whether one of the allocated names reads `name`.
pub fn name_used(names: &Vec<String>, name: &str) -> (r: bool)
    ensures
        r == name_in(names@, name@),
{
    let n = names.len();
    let mut i: usize = 0;
    while i < n
        invariant
            i <= n,
            n == names@.len(),
            forall|j: int| 0 <= j < i ==> names@[j]@ != name@,
        decreases n - i,
    {
        if str_eq(names[i].as_str(), name) {
            proof {
                assert(names@[i as int]@ == name@);
            }
            return true;
        }
        i = i + 1;
    }
    false
}

/// The pascal form of a source name.
pub fn to_pascal_case(s: &str) -> (r: String)
    ensures
        r@ == spec_pascal(s@),
{
    let canonical = CanonicalName::from_string(s);
    canonical.pascal
}

/// The view of an optional borrowed string.
pub open spec fn opt_view(o: Option<&String>) -> Option<Seq<char>> {
    match o {
        Option::Some(s) => Option::Some(s@),
        Option::None => Option::None,
    }
}

/// The base name the hoister derives from context: operation id and hint in
/// pascal case when both are present; else the pascal part that exists,
/// followed by the context word; `InlineType` plus context when neither is.
pub open spec fn spec_base_name(
    op_id: Option<Seq<char>>,
    hint: Option<Seq<char>>,
    context: Seq<char>,
) -> Seq<char> {
    match (op_id, hint) {
        (Option::Some(o), Option::Some(h)) => spec_pascal(o) + spec_pascal(h),
        (Option::Some(o), Option::None) => spec_pascal(o) + context,
        (Option::None, Option::Some(h)) => spec_pascal(h) + context,
        (Option::None, Option::None) => "InlineType"@ + context,
    }
}

/// The `k`-th name candidate: the base itself, then `base_2`, `base_3`, …
pub open spec fn spec_candidate(base: Seq<char>, k: nat) -> Seq<char> {
    if k <= 1 {
        base
    } else {
        base + seq!['_'] + spec_dec(k)
    }
}

proof fn lemma_dec_len(n: nat)
    ensures
        spec_dec(n).len() >= 1,
        n >= 10 ==> spec_dec(n).len() >= 2,
    decreases n,
{
    if n >= 10 {
        lemma_dec_len(n / 10);
    }
}

proof fn lemma_dec_injective(a: nat, b: nat)
    requires
        spec_dec(a) == spec_dec(b),
    ensures
        a == b,
    decreases a,
{
    lemma_dec_len(a);
    lemma_dec_len(b);
    if a < 10 && b < 10 {
        assert(spec_dec(a) == seq![spec_digit(a)]);
        assert(spec_dec(b) == seq![spec_digit(b)]);
        assert(seq![spec_digit(a)][0] == spec_digit(a));
        assert(seq![spec_digit(b)][0] == spec_digit(b));
        assert(spec_dec(a)[0] == spec_dec(b)[0]);
        assert(spec_digit(a) == spec_digit(b));
        assert(spec_digit(a) as int == 48 + a) by {
            assert(((48 + a) as u8) == 48 + a);
        }
        assert(spec_digit(b) as int == 48 + b) by {
            assert(((48 + b) as u8) == 48 + b);
        }
    } else if a < 10 {
        assert(spec_dec(a).len() == 1);
        assert(spec_dec(b).len() >= 2);
    } else if b < 10 {
        assert(spec_dec(b).len() == 1);
        assert(spec_dec(a).len() >= 2);
    } else {
        assert(spec_dec(a).last() == spec_dec(b).last());
        assert(spec_dec(a).last() == spec_digit(a % 10));
        assert(spec_dec(b).last() == spec_digit(b % 10));
        assert(spec_digit(a % 10) as int == 48 + a % 10) by {
            assert(((48 + a % 10) as u8) == 48 + a % 10);
        }
        assert(spec_digit(b % 10) as int == 48 + b % 10) by {
            assert(((48 + b % 10) as u8) == 48 + b % 10);
        }
        assert(a % 10 == b % 10);
        assert(spec_dec(a).drop_last() =~= spec_dec(a / 10));
        assert(spec_dec(b).drop_last() =~= spec_dec(b / 10));
        lemma_dec_injective(a / 10, b / 10);
    }
}

proof fn lemma_candidates_distinct(base: Seq<char>, j: nat, k: nat)
    requires
        1 <= j < k,
    ensures
        spec_candidate(base, j) != spec_candidate(base, k),
{
    lemma_dec_len(k);
    if j == 1 {
        assert(spec_candidate(base, k).len() > base.len());
    } else {
        lemma_dec_len(j);
        if spec_candidate(base, j) == spec_candidate(base, k) {
            assert((base + seq!['_'] + spec_dec(j)).skip(base.len() as int + 1) =~= spec_dec(j));
            assert((base + seq!['_'] + spec_dec(k)).skip(base.len() as int + 1) =~= spec_dec(k));
            lemma_dec_injective(j, k);
        }
    }
}

/// The set of the first `k` candidates.
pub open spec fn candidate_set(base: Seq<char>, k: nat) -> Set<Seq<char>> {
    Set::new(|s: Seq<char>| exists|j: nat| 1 <= j <= k && s == spec_candidate(base, j))
}

proof fn lemma_candidate_set_card(base: Seq<char>, k: nat)
    ensures
        candidate_set(base, k).finite(),
        candidate_set(base, k).len() == k,
    decreases k,
{
    if k == 0 {
        assert(candidate_set(base, 0) =~= Set::<Seq<char>>::empty());
    } else {
        lemma_candidate_set_card(base, (k - 1) as nat);
        assert forall|j: nat| 1 <= j < k implies spec_candidate(base, j) != spec_candidate(
            base,
            k,
        ) by {
            lemma_candidates_distinct(base, j, k);
        }
        assert(!candidate_set(base, (k - 1) as nat).contains(spec_candidate(base, k)));
        assert(candidate_set(base, k) =~= candidate_set(base, (k - 1) as nat).insert(
            spec_candidate(base, k),
        ));
    }
}

/// If the first `k` candidates all occur among the allocated names, there
/// are at least `k` allocated names.
proof fn lemma_probe_bound(names: Seq<String>, base: Seq<char>, k: nat)
    requires
        forall|j: nat| 1 <= j <= k ==> name_in(names, #[trigger] spec_candidate(base, j)),
    ensures
        k <= names.len(),
{
    let views = names.map_values(|s: String| s@);
    assert(views.len() == names.len());
    lemma_candidate_set_card(base, k);
    assert(candidate_set(base, k) <= views.to_set()) by {
        assert forall|s: Seq<char>| candidate_set(base, k).contains(s) implies views.to_set()
            .contains(s) by {
            let j = choose|j: nat| 1 <= j <= k && s == spec_candidate(base, j);
            assert(name_in(names, spec_candidate(base, j)));
            let i = choose|i: int| 0 <= i < names.len() && names[i]@ == s;
            assert(views[i] == s);
            assert(views.contains(s));
        }
    }
    views.lemma_cardinality_of_set();
    vstd::set_lib::lemma_len_subset(candidate_set(base, k), views.to_set());
}

/// Derives a unique name for an inline schema: the context-derived base
/// name, suffixed with `_2`, `_3`, … until a name not yet allocated is
/// found.  The result is never an already allocated name, so hoisting never
/// overwrites an existing type.
#[verifier::loop_isolation(false)]
pub fn generate_inline_type_name(
    ctx: &BuildContext,
    operation_id: Option<&String>,
    context: &str,
    hint: Option<&String>,
) -> (r: String)
    ensures
        !name_in(ctx.used_type_names@, r@),
        exists|k: nat|
            {
                &&& 1 <= k
                &&& r@ == spec_candidate(
                    spec_base_name(opt_view(operation_id), opt_view(hint), context@),
                    k,
                )
                &&& forall|j: nat|
                    1 <= j < k ==> name_in(
                        ctx.used_type_names@,
                        #[trigger] spec_candidate(
                            spec_base_name(opt_view(operation_id), opt_view(hint), context@),
                            j,
                        ),
                    )
            },
{
    let mut base: String = match (operation_id, hint) {
        (Some(o), Some(h)) => {
            let mut b = to_pascal_case(o.as_str());
            let hp = to_pascal_case(h.as_str());
            b.append(hp.as_str());
            b
        },
        (Some(o), None) => {
            let mut b = to_pascal_case(o.as_str());
            b.append(context);
            b
        },
        (None, Some(h)) => {
            let mut b = to_pascal_case(h.as_str());
            b.append(context);
            b
        },
        (None, None) => {
            let mut b = String::from_str("InlineType");
            b.append(context);
            b
        },
    };
    let ghost base_chars = base@;
    proof {
        assert(base_chars == spec_base_name(opt_view(operation_id), opt_view(hint), context@));
    }
    if !name_used(&ctx.used_type_names, base.as_str()) {
        proof {
            let k: nat = 1;
            assert(base@ == spec_candidate(base_chars, k));
        }
        return base;
    }
    let names_len = ctx.used_type_names.len();
    let mut k: u128 = 2;
    loop
        invariant
            2 <= k,
            k <= names_len + 1,
            forall|j: nat|
                1 <= j < k ==> name_in(
                    ctx.used_type_names@,
                    #[trigger] spec_candidate(base_chars, j),
                ),
        decreases names_len + 1 - k,
    {
        let mut cand = base.clone();
        push_char(&mut cand, '_');
        push_dec(&mut cand, k);
        proof {
            assert(cand@ =~= spec_candidate(base_chars, k as nat));
        }
        if !name_used(&ctx.used_type_names, cand.as_str()) {
            proof {
                let ghost kk: nat = k as nat;
                assert(cand@ == spec_candidate(base_chars, kk));
            }
            return cand;
        }
        proof {
            assert forall|j: nat| 1 <= j <= k implies name_in(
                ctx.used_type_names@,
                #[trigger] spec_candidate(base_chars, j),
            ) by {
                if j < k {
                } else {
                    assert(spec_candidate(base_chars, k as nat) == cand@);
                }
            }
            lemma_probe_bound(ctx.used_type_names@, base_chars, k as nat);
        }
        k = k + 1;
    }
}

} // verus!
