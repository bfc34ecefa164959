//! The character library: adding, updating and rendering character profiles.
//!
//! Profiles are kept in a vector sorted strictly by name. The library's value
//! is the map from names to profiles; a merge inserts each new profile under
//! its name, replacing the profile held under that name.

use vstd::prelude::*;

use crate::script::{profiles_view, CharacterProfile, ProfileView};
use crate::text::{chars_lt, lemma_seq_lt_irreflexive, lemma_seq_lt_total, lemma_seq_lt_transitive, seq_lt, str_chars};

verus! {

/// The character library: profiles keyed by character name.
///
/// The profiles are held sorted strictly by name, so each name occurs once.
pub struct CharacterLibrary {
    characters: Vec<CharacterProfile>,
}

/// Profiles sorted strictly by name.
pub open spec fn sorted_by_name(s: Seq<ProfileView>) -> bool {
    forall|i: int, j: int| 0 <= i < j < s.len() ==> seq_lt(#[trigger] s[i].name, #[trigger] s[j].name)
}

/// Whether some profile of `s` has name `k`.
pub open spec fn has_name(s: Seq<ProfileView>, k: Seq<char>) -> bool {
    exists|i: int| 0 <= i < s.len() && (#[trigger] s[i]).name == k
}

/// The position of a profile named `k` in `s`.
pub open spec fn name_index(s: Seq<ProfileView>, k: Seq<char>) -> int {
    choose|i: int| 0 <= i < s.len() && (#[trigger] s[i]).name == k
}

/// The map from names to profiles that a sequence of profiles holds.
pub open spec fn profiles_map(s: Seq<ProfileView>) -> Map<Seq<char>, ProfileView> {
    Map::new(|k: Seq<char>| has_name(s, k), |k: Seq<char>| s[name_index(s, k)])
}

/// In a sequence sorted by name, the profile at position `i` is the one the
/// map holds under its name.
pub proof fn lemma_profiles_map_at(s: Seq<ProfileView>, i: int)
    requires
        sorted_by_name(s),
        0 <= i < s.len(),
    ensures
        profiles_map(s).dom().contains(s[i].name),
        profiles_map(s)[s[i].name] == s[i],
{
    assert(has_name(s, s[i].name));
    let j = name_index(s, s[i].name);
    if j != i {
        if j < i {
            assert(seq_lt(s[j].name, s[i].name));
        } else {
            assert(seq_lt(s[i].name, s[j].name));
        }
        lemma_seq_lt_irreflexive(s[i].name);
    }
}

} // verus!

verus! {

/// Inserts `p` into a vector sorted by name, replacing the profile with the
/// same name if there is one.
fn insert_sorted(v: &mut Vec<CharacterProfile>, p: CharacterProfile)
    requires
        sorted_by_name(profiles_view(old(v)@)),
    ensures
        sorted_by_name(profiles_view(final(v)@)),
        profiles_map(profiles_view(final(v)@)) == profiles_map(profiles_view(old(v)@)).insert(
            p@.name,
            p@,
        ),
{
    let ghost old_s = profiles_view(v@);
    let ghost pv = p@;
    let name = str_chars(p.name.as_str());
    let mut i: usize = 0;
    while i < v.len() && chars_lt(&str_chars(v[i].name.as_str()), &name)
        invariant
            i <= v@.len(),
            v@ == old(v)@,
            old_s == profiles_view(v@),
            name@ == pv.name,
            forall|j: int| 0 <= j < i ==> seq_lt(#[trigger] old_s[j].name, pv.name),
        decreases v@.len() - i,
    {
        i = i + 1;
    }
    if i < v.len() && v[i].name == p.name {
        v.set(i, p);
        let ghost new_s = profiles_view(v@);
        assert(new_s =~= old_s.update(i as int, pv));
        assert forall|a: int| 0 <= a < new_s.len() implies (#[trigger] new_s[a]).name == old_s[a].name by {
        }
        assert(sorted_by_name(new_s));
        proof {
            lemma_profiles_map_update(old_s, i as int, pv);
        }
    } else {
        proof {
            if i < old_s.len() {
                lemma_seq_lt_total(old_s[i as int].name, pv.name);
            }
        }
        v.insert(i, p);
        let ghost new_s = profiles_view(v@);
        assert(new_s =~= old_s.insert(i as int, pv));
        proof {
            lemma_sorted_insert(old_s, i as int, pv);
            lemma_profiles_map_insert(old_s, i as int, pv);
        }
    }
}

proof fn lemma_profiles_map_update(s: Seq<ProfileView>, i: int, p: ProfileView)
    requires
        sorted_by_name(s),
        0 <= i < s.len(),
        s[i].name == p.name,
    ensures
        profiles_map(s.update(i, p)) == profiles_map(s).insert(p.name, p),
{
    let t = s.update(i, p);
    assert(sorted_by_name(t));
    lemma_profiles_map_at(t, i);
    assert forall|k: Seq<char>| has_name(t, k) <==> has_name(s, k) by {
        if has_name(t, k) {
            let j = choose|j: int| 0 <= j < t.len() && (#[trigger] t[j]).name == k;
            assert(s[j].name == k);
        }
        if has_name(s, k) {
            let j = choose|j: int| 0 <= j < s.len() && (#[trigger] s[j]).name == k;
            assert(t[j].name == k);
        }
    }
    assert forall|k: Seq<char>| #[trigger] profiles_map(t).dom().contains(k) && k != p.name implies profiles_map(
        t,
    )[k] == profiles_map(s)[k] by {
        let j = choose|j: int| 0 <= j < t.len() && (#[trigger] t[j]).name == k;
        lemma_profiles_map_at(t, j);
        lemma_profiles_map_at(s, j);
    }
    assert(profiles_map(t) =~= profiles_map(s).insert(p.name, p));
}

proof fn lemma_sorted_insert(s: Seq<ProfileView>, i: int, p: ProfileView)
    requires
        sorted_by_name(s),
        0 <= i <= s.len(),
        forall|j: int| 0 <= j < i ==> seq_lt(#[trigger] s[j].name, p.name),
        i < s.len() ==> seq_lt(p.name, s[i].name),
    ensures
        sorted_by_name(s.insert(i, p)),
{
    let t = s.insert(i, p);
    assert forall|a: int, b: int| 0 <= a < b < t.len() implies seq_lt(#[trigger] t[a].name, #[trigger] t[b].name) by {
        if b == i {
        } else if a == i {
            if b - 1 > i {
                lemma_seq_lt_transitive(p.name, s[i].name, s[b - 1].name);
            }
        } else if a < i && b > i {
            if b - 1 > i {
                lemma_seq_lt_transitive(p.name, s[i].name, s[b - 1].name);
            }
            lemma_seq_lt_transitive(s[a].name, p.name, s[b - 1].name);
        }
    }
}

proof fn lemma_profiles_map_insert(s: Seq<ProfileView>, i: int, p: ProfileView)
    requires
        sorted_by_name(s),
        sorted_by_name(s.insert(i, p)),
        0 <= i <= s.len(),
    ensures
        profiles_map(s.insert(i, p)) == profiles_map(s).insert(p.name, p),
{
    let t = s.insert(i, p);
    lemma_profiles_map_at(t, i);
    assert forall|k: Seq<char>| has_name(t, k) <==> (has_name(s, k) || k == p.name) by {
        if has_name(t, k) {
            let j = choose|j: int| 0 <= j < t.len() && (#[trigger] t[j]).name == k;
            if j < i {
                assert(s[j].name == k);
            } else if j > i {
                assert(s[j - 1].name == k);
            }
        }
        if has_name(s, k) {
            let j = choose|j: int| 0 <= j < s.len() && (#[trigger] s[j]).name == k;
            if j < i {
                assert(t[j].name == k);
            } else {
                assert(t[j + 1].name == k);
            }
        }
        if k == p.name {
            assert(t[i].name == k);
        }
    }
    assert forall|k: Seq<char>| #[trigger] profiles_map(t).dom().contains(k) && k != p.name implies profiles_map(
        t,
    )[k] == profiles_map(s)[k] by {
        let j = choose|j: int| 0 <= j < s.len() && (#[trigger] s[j]).name == k;
        lemma_profiles_map_at(s, j);
        if j < i {
            lemma_profiles_map_at(t, j);
        } else {
            lemma_profiles_map_at(t, j + 1);
        }
    }
    assert(profiles_map(t) =~= profiles_map(s).insert(p.name, p));
}

} // verus!

verus! {

/// The library after inserting each profile of `ps` in turn under its name.
pub open spec fn merge_spec(m: Map<Seq<char>, ProfileView>, ps: Seq<ProfileView>) -> Map<
    Seq<char>,
    ProfileView,
>
    decreases ps.len(),
{
    if ps.len() == 0 {
        m
    } else {
        merge_spec(m, ps.drop_last()).insert(ps.last().name, ps.last())
    }
}

/// The prompt text of one profile.
pub open spec fn profile_text(p: ProfileView) -> Seq<char> {
    "- "@ + p.name + "："@ + p.profile + "\n  场景："@ + p.scene + "\n  音色："@ + p.guidance
}

/// The prompt texts of profiles, one per line.
pub open spec fn profiles_text(ps: Seq<ProfileView>) -> Seq<char>
    decreases ps.len(),
{
    if ps.len() <= 1 {
        if ps.len() == 1 {
            profile_text(ps[0])
        } else {
            Seq::empty()
        }
    } else {
        profiles_text(ps.drop_last()) + "\n"@ + profile_text(ps.last())
    }
}

/// The prompt text of a library whose profiles, sorted by name, are `ps`.
pub open spec fn render_spec(ps: Seq<ProfileView>) -> Seq<char> {
    if ps.len() == 0 {
        "（暂无角色）"@
    } else {
        profiles_text(ps)
    }
}

impl CharacterLibrary {
    /// The profiles, sorted by name.
    pub closed spec fn entries(self) -> Seq<ProfileView> {
        profiles_view(self.characters@)
    }

    #[verifier::type_invariant]
    spec fn sorted_inv(self) -> bool {
        sorted_by_name(self.entries())
    }

    /// An empty library.
    pub fn new() -> (lib: CharacterLibrary)
        ensures
            lib@ == Map::<Seq<char>, ProfileView>::empty(),
            lib.entries() == Seq::<ProfileView>::empty(),
    {
        let lib = CharacterLibrary { characters: Vec::new() };
        assert(lib.entries() =~= Seq::<ProfileView>::empty());
        assert(lib@ =~= Map::<Seq<char>, ProfileView>::empty());
        lib
    }

    /// The profiles, sorted strictly by name; they are exactly the library's
    /// entries.
    pub fn profiles(&self) -> (r: &[CharacterProfile])
        ensures
            profiles_view(r@) == self.entries(),
            sorted_by_name(self.entries()),
            self@ == profiles_map(self.entries()),
    {
        proof {
            use_type_invariant(self);
        }
        self.characters.as_slice()
    }

    /// Inserts one profile under its name, replacing the profile held under
    /// that name.
    pub fn insert(&mut self, p: CharacterProfile)
        ensures
            final(self)@ == old(self)@.insert(p@.name, p@),
    {
        proof {
            use_type_invariant(&*self);
        }
        let mut v: Vec<CharacterProfile> = Vec::new();
        std::mem::swap(&mut v, &mut self.characters);
        insert_sorted(&mut v, p);
        self.characters = v;
    }

    /// Merges new profiles: each new character is added and each existing
    /// one replaced by its newer profile, in order.
    pub fn merge(&mut self, new_chars: &[CharacterProfile])
        ensures
            final(self)@ == merge_spec(old(self)@, profiles_view(new_chars@)),
    {
        let ghost ps = profiles_view(new_chars@);
        let ghost start = self@;
        let mut i: usize = 0;
        assert(ps.take(0) =~= Seq::<ProfileView>::empty());
        while i < new_chars.len()
            invariant
                i <= new_chars@.len(),
                ps == profiles_view(new_chars@),
                self@ == merge_spec(start, ps.take(i as int)),
                start == old(self)@,
            decreases new_chars@.len() - i,
        {
            self.insert(new_chars[i].duplicate());
            assert(ps.take(i + 1).drop_last() =~= ps.take(i as int));
            i = i + 1;
        }
        assert(ps.take(i as int) =~= ps);
    }

    /// Merges another library: its profiles replace those under the same
    /// names, and its other characters are added.
    pub fn merge_library(&mut self, other: &CharacterLibrary)
        ensures
            final(self)@ == old(self)@.union_prefer_right(other@),
    {
        let others = other.profiles();
        let ghost s = profiles_view(others@);
        let ghost start = self@;
        let mut i: usize = 0;
        assert(profiles_map(s.take(0)) =~= Map::<Seq<char>, ProfileView>::empty());
        assert(start.union_prefer_right(Map::<Seq<char>, ProfileView>::empty()) =~= start);
        while i < others.len()
            invariant
                i <= others@.len(),
                s == profiles_view(others@),
                sorted_by_name(s),
                other@ == profiles_map(s),
                start == old(self)@,
                self@ == start.union_prefer_right(profiles_map(s.take(i as int))),
            decreases others@.len() - i,
        {
            let ghost before = profiles_map(s.take(i as int));
            self.insert(others[i].duplicate());
            proof {
                let t = s.take(i as int);
                assert(s.take(i + 1) =~= t.insert(i as int, s[i as int]));
                assert(sorted_by_name(t));
                assert(sorted_by_name(s.take(i + 1)));
                lemma_profiles_map_insert(t, i as int, s[i as int]);
                assert(start.union_prefer_right(before.insert(s[i as int].name, s[i as int]))
                    =~= start.union_prefer_right(before).insert(s[i as int].name, s[i as int]));
            }
            i = i + 1;
        }
        assert(s.take(i as int) =~= s);
    }

    /// The profile held under `name`.
    pub fn get(&self, name: &str) -> (r: Option<&CharacterProfile>)
        ensures
            r is Some <==> self@.dom().contains(name@),
            r matches Some(p) ==> p@ == self@[name@],
    {
        proof {
            use_type_invariant(self);
        }
        let ghost s = self.entries();
        let mut i: usize = 0;
        while i < self.characters.len()
            invariant
                i <= self.characters@.len(),
                s == self.entries(),
                sorted_by_name(s),
                forall|j: int| 0 <= j < i ==> (#[trigger] s[j]).name != name@,
            decreases self.characters@.len() - i,
        {
            if crate::text::str_eq(self.characters[i].name.as_str(), name) {
                proof {
                    lemma_profiles_map_at(s, i as int);
                }
                return Some(&self.characters[i]);
            }
            i = i + 1;
        }
        None
    }

    /// The number of characters.
    pub fn len(&self) -> (n: usize)
        ensures
            n == self@.len(),
    {
        proof {
            use_type_invariant(self);
            lemma_profiles_map_len(self.entries());
        }
        self.characters.len()
    }

    /// Whether the library holds no character.
    pub fn is_empty(&self) -> (b: bool)
        ensures
            b == (self@.len() == 0),
    {
        self.len() == 0
    }

    /// The prompt text of the library: each profile as name, description,
    /// scenes and voice setting, in order of name, one per line; or a note
    /// that there are no characters yet.
    pub fn render_for_prompt(&self) -> (s: String)
        ensures
            s@ == render_spec(self.entries()),
            sorted_by_name(self.entries()),
            self@ == profiles_map(self.entries()),
    {
        proof {
            use_type_invariant(self);
        }
        let ghost ps = self.entries();
        if self.characters.len() == 0 {
            return "（暂无角色）".to_owned();
        }
        let mut out = profile_line(&self.characters[0]);
        assert(ps.take(1).drop_last() =~= Seq::<ProfileView>::empty());
        let mut i: usize = 1;
        while i < self.characters.len()
            invariant
                1 <= i <= self.characters@.len(),
                ps == self.entries(),
                out@ == profiles_text(ps.take(i as int)),
            decreases self.characters@.len() - i,
        {
            out.append("\n");
            let line = profile_line(&self.characters[i]);
            out.append(line.as_str());
            assert(ps.take(i + 1).drop_last() =~= ps.take(i as int));
            i = i + 1;
        }
        assert(ps.take(i as int) =~= ps);
        out
    }

    /// A copy of the library.
    pub fn duplicate(&self) -> (r: CharacterLibrary)
        ensures
            r@ == self@,
            r.entries() == self.entries(),
    {
        proof {
            use_type_invariant(self);
        }
        let mut v: Vec<CharacterProfile> = Vec::new();
        let mut i: usize = 0;
        while i < self.characters.len()
            invariant
                i <= self.characters@.len(),
                profiles_view(v@) == self.entries().take(i as int),
            decreases self.characters@.len() - i,
        {
            let ghost before = v@;
            v.push(self.characters[i].duplicate());
            assert(profiles_view(v@) =~= profiles_view(before).push(self.characters@[i as int]@));
            assert(self.entries().take(i + 1) =~= self.entries().take(i as int).push(self.entries()[i as int]));
            i = i + 1;
        }
        assert(self.entries().take(i as int) =~= self.entries());
        CharacterLibrary { characters: v }
    }
}

impl View for CharacterLibrary {
    type V = Map<Seq<char>, ProfileView>;

    /// Profiles by character name.
    open spec fn view(&self) -> Map<Seq<char>, ProfileView> {
        profiles_map(self.entries())
    }
}

/// The prompt text of one profile (executable).
fn profile_line(p: &CharacterProfile) -> (s: String)
    ensures
        s@ == profile_text(p@),
{
    let mut s = "- ".to_owned();
    s.append(p.name.as_str());
    s.append("：");
    s.append(p.profile.as_str());
    s.append("\n  场景：");
    s.append(p.scene.as_str());
    s.append("\n  音色：");
    s.append(p.guidance.as_str());
    s
}

/// A library of distinct names holds one entry per profile.
proof fn lemma_profiles_map_len(s: Seq<ProfileView>)
    requires
        sorted_by_name(s),
    ensures
        profiles_map(s).len() == s.len(),
{
    let names = s.map_values(|p: ProfileView| p.name);
    assert forall|i: int, j: int| 0 <= i < names.len() && 0 <= j < names.len() && i != j implies names[i] != names[j] by {
        if i < j {
            assert(seq_lt(s[i].name, s[j].name));
        } else {
            assert(seq_lt(s[j].name, s[i].name));
        }
        lemma_seq_lt_irreflexive(s[i].name);
    }
    names.unique_seq_to_set();
    assert forall|k: Seq<char>| profiles_map(s).dom().contains(k) <==> names.to_set().contains(k) by {
        if has_name(s, k) {
            let j = choose|j: int| 0 <= j < s.len() && (#[trigger] s[j]).name == k;
            assert(names[j] == k);
        }
        if names.to_set().contains(k) {
            let j = choose|j: int| 0 <= j < names.len() && names[j] == k;
            assert(s[j].name == k);
        }
    }
    assert(profiles_map(s).dom() =~= names.to_set());
}

} // verus!

verus! {

/// The position of the last profile of `ps` named `k`, or -1 when none is.
pub open spec fn last_name_index(ps: Seq<ProfileView>, k: Seq<char>) -> int
    decreases ps.len(),
{
    if ps.len() == 0 {
        -1
    } else if ps.last().name == k {
        ps.len() - 1
    } else {
        last_name_index(ps.drop_last(), k)
    }
}

proof fn lemma_last_name_index(ps: Seq<ProfileView>, k: Seq<char>)
    ensures
        -1 <= last_name_index(ps, k) < ps.len(),
        last_name_index(ps, k) >= 0 ==> ps[last_name_index(ps, k)].name == k,
        last_name_index(ps, k) >= 0 ==> forall|j: int|
            last_name_index(ps, k) < j < ps.len() ==> (#[trigger] ps[j]).name != k,
        last_name_index(ps, k) < 0 ==> forall|j: int| 0 <= j < ps.len() ==> (#[trigger] ps[j]).name != k,
    decreases ps.len(),
{
    if ps.len() > 0 {
        lemma_last_name_index(ps.drop_last(), k);
        let l = last_name_index(ps.drop_last(), k);
        if ps.last().name != k {
            assert forall|j: int| l < j < ps.len() implies (#[trigger] ps[j]).name != k by {
                if j < ps.len() - 1 {
                    assert(ps.drop_last()[j] == ps[j]);
                }
            }
        }
    }
}

/// A merge, name by name: a name that some new profile carries holds the
/// last such profile; any other name keeps what it held before (or stays
/// absent).
pub proof fn law_merge_lookup(m: Map<Seq<char>, ProfileView>, ps: Seq<ProfileView>, k: Seq<char>)
    ensures
        -1 <= last_name_index(ps, k) < ps.len(),
        merge_spec(m, ps).dom().contains(k) == (last_name_index(ps, k) >= 0 || m.dom().contains(k)),
        last_name_index(ps, k) >= 0 ==> merge_spec(m, ps)[k] == ps[last_name_index(ps, k)],
        last_name_index(ps, k) < 0 && m.dom().contains(k) ==> merge_spec(m, ps)[k] == m[k],
    decreases ps.len(),
{
    lemma_last_name_index(ps, k);
    if ps.len() > 0 {
        law_merge_lookup(m, ps.drop_last(), k);
    }
}

/// Merging profiles that do not carry a name leaves that name as it was.
pub proof fn law_merge_keeps_other_names(m: Map<Seq<char>, ProfileView>, ps: Seq<ProfileView>, k: Seq<char>)
    requires
        forall|j: int| 0 <= j < ps.len() ==> (#[trigger] ps[j]).name != k,
    ensures
        merge_spec(m, ps).dom().contains(k) == m.dom().contains(k),
        m.dom().contains(k) ==> merge_spec(m, ps)[k] == m[k],
{
    law_merge_lookup(m, ps, k);
    lemma_last_name_index(ps, k);
    if last_name_index(ps, k) >= 0 {
        assert(ps[last_name_index(ps, k)].name == k);
    }
}

/// After a merge, the character of a new profile holds that profile, unless
/// a later new profile carries the same name.
pub proof fn law_merge_last_profile_wins(m: Map<Seq<char>, ProfileView>, ps: Seq<ProfileView>, i: int)
    requires
        0 <= i < ps.len(),
        forall|j: int| i < j < ps.len() ==> (#[trigger] ps[j]).name != ps[i].name,
    ensures
        merge_spec(m, ps).dom().contains(ps[i].name),
        merge_spec(m, ps)[ps[i].name] == ps[i],
{
    let k = ps[i].name;
    law_merge_lookup(m, ps, k);
    lemma_last_name_index(ps, k);
    let l = last_name_index(ps, k);
    if l < i {
        assert(ps[i].name == k);
    }
    if l > i {
        assert(ps[l].name == k);
    }
}

/// Merging the same profiles a second time changes nothing.
pub proof fn law_merge_idempotent(m: Map<Seq<char>, ProfileView>, ps: Seq<ProfileView>)
    ensures
        merge_spec(merge_spec(m, ps), ps) == merge_spec(m, ps),
{
    let once = merge_spec(m, ps);
    let twice = merge_spec(once, ps);
    assert forall|k: Seq<char>| #[trigger] twice.dom().contains(k) == once.dom().contains(k) by {
        law_merge_lookup(m, ps, k);
        law_merge_lookup(once, ps, k);
    }
    assert forall|k: Seq<char>| #[trigger] twice.dom().contains(k) implies twice[k] == once[k] by {
        law_merge_lookup(m, ps, k);
        law_merge_lookup(once, ps, k);
    }
    assert(twice =~= once);
}

/// Every character of a library is held under its own name.
pub proof fn law_library_keys_are_names(lib: CharacterLibrary, k: Seq<char>)
    requires
        lib@.dom().contains(k),
    ensures
        lib@[k].name == k,
{
    let s = lib.entries();
    assert(has_name(s, k));
}

} // verus!
