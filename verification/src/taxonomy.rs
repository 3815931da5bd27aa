use vstd::prelude::*;

verus! {

/// Species ids below this bound share a genus; the remainder picks the epithet.
pub const SPECIES_EPITHET_SLOTS: u32 = 10000;
/// Species ids below this bound share a body shape class.
pub const SPECIES_CLASS_STRIDE: u32 = 10000000;

// ----- word lists -----

/// Unicode `White_Space` characters, the ones that trimming removes.
pub open spec fn is_white_space(c: char) -> bool {
    ||| '\u{9}' <= c <= '\u{d}'
    ||| c == ' '
    ||| c == '\u{85}'
    ||| c == '\u{a0}'
    ||| c == '\u{1680}'
    ||| '\u{2000}' <= c <= '\u{200a}'
    ||| c == '\u{2028}'
    ||| c == '\u{2029}'
    ||| c == '\u{202f}'
    ||| c == '\u{205f}'
    ||| c == '\u{3000}'
}

/// Whether `c` is Unicode white space.
pub fn char_is_white_space(c: char) -> (ws: bool)
    ensures
        ws == is_white_space(c),
{
    ('\u{9}' <= c && c <= '\u{d}') || c == ' ' || c == '\u{85}' || c == '\u{a0}' || c == '\u{1680}'
        || ('\u{2000}' <= c && c <= '\u{200a}') || c == '\u{2028}' || c == '\u{2029}' || c == '\u{202f}'
        || c == '\u{205f}' || c == '\u{3000}'
}

/// `s` without leading white space.
pub open spec fn trim_start(s: Seq<char>) -> Seq<char>
    decreases s.len(),
{
    if s.len() > 0 && is_white_space(s[0]) { trim_start(s.drop_first()) } else { s }
}

/// `s` without trailing white space.
pub open spec fn trim_end(s: Seq<char>) -> Seq<char>
    decreases s.len(),
{
    if s.len() > 0 && is_white_space(s.last()) { trim_end(s.drop_last()) } else { s }
}

/// `s` without leading and trailing white space.
pub open spec fn trim(s: Seq<char>) -> Seq<char> {
    trim_end(trim_start(s))
}

/// The pieces of `s` between newline characters, in order; a text without
/// newlines is a single piece.
pub open spec fn split_lines(s: Seq<char>) -> Seq<Seq<char>>
    decreases s.len(),
{
    if s.len() == 0 {
        seq![Seq::empty()]
    } else {
        let rest = split_lines(s.drop_last());
        if s.last() == '\n' {
            rest.push(Seq::empty())
        } else {
            rest.update(rest.len() - 1, rest.last().push(s.last()))
        }
    }
}

/// The word a line contributes: the trimmed line, unless it is empty or a
/// comment starting with `#`.
pub open spec fn line_word(line: Seq<char>) -> Seq<Seq<char>> {
    let t = trim(line);
    if t.len() > 0 && t[0] != '#' { seq![t] } else { Seq::empty() }
}

/// The words of a list of lines, in order.
pub open spec fn line_words(lines: Seq<Seq<char>>) -> Seq<Seq<char>>
    decreases lines.len(),
{
    if lines.len() == 0 {
        Seq::empty()
    } else {
        line_words(lines.drop_last()) + line_word(lines.last())
    }
}

/// The words of a taxonomy word list: one per line, trimmed, skipping blank
/// lines and `#` comments.
pub open spec fn taxonomy_words(text: Seq<char>) -> Seq<Seq<char>> {
    line_words(split_lines(text))
}

/// The views of a list of strings.
pub open spec fn string_views(v: Seq<String>) -> Seq<Seq<char>> {
    v.map_values(|s: String| s@)
}

proof fn lemma_trim_start_skip(s: Seq<char>, k: int)
    requires
        0 <= k <= s.len(),
        forall|i: int| 0 <= i < k ==> is_white_space(#[trigger] s[i]),
        k < s.len() ==> !is_white_space(s[k]),
    ensures
        trim_start(s) == s.skip(k),
    decreases k,
{
    if k > 0 {
        let d = s.drop_first();
        assert forall|i: int| 0 <= i < k - 1 implies is_white_space(#[trigger] d[i]) by {
            assert(d[i] == s[i + 1]);
        }
        if k - 1 < d.len() {
            assert(d[k - 1] == s[k]);
        }
        lemma_trim_start_skip(d, k - 1);
        assert(d.skip(k - 1) =~= s.skip(k));
    } else {
        assert(s.skip(0) =~= s);
    }
}

proof fn lemma_trim_end_take(s: Seq<char>, k: int)
    requires
        0 <= k <= s.len(),
        forall|i: int| k <= i < s.len() ==> is_white_space(#[trigger] s[i]),
        k > 0 ==> !is_white_space(s[k - 1]),
    ensures
        trim_end(s) == s.take(k),
    decreases s.len() - k,
{
    if k < s.len() {
        let d = s.drop_last();
        assert forall|i: int| k <= i < d.len() implies is_white_space(#[trigger] d[i]) by {
            assert(d[i] == s[i]);
        }
        if k > 0 {
            assert(d[k - 1] == s[k - 1]);
        }
        lemma_trim_end_take(d, k);
        assert(d.take(k) =~= s.take(k));
    } else {
        assert(s.take(k) =~= s);
    }
}

/// Bounds of the trimmed text between `start` and `end`.
fn trimmed_bounds(text: &str, start: usize, end: usize) -> (b: (usize, usize))
    requires
        start <= end <= text@.len(),
    ensures
        start <= b.0 <= b.1 <= end,
        text@.subrange(b.0 as int, b.1 as int) == trim(text@.subrange(start as int, end as int)),
{
    let ghost piece = text@.subrange(start as int, end as int);
    let mut a = start;
    while a < end && char_is_white_space(text.get_char(a))
        invariant
            start <= a <= end,
            end <= text@.len(),
            forall|i: int| start <= i < a ==> is_white_space(#[trigger] text@[i]),
        decreases end - a,
    {
        a = a + 1;
    }
    proof {
        assert forall|i: int| 0 <= i < a - start implies is_white_space(#[trigger] piece[i]) by {
            assert(piece[i] == text@[start + i]);
        }
        if a < end {
            assert(piece[a - start] == text@[a as int]);
        }
        lemma_trim_start_skip(piece, a - start);
    }
    let ghost head = piece.skip(a - start);
    assert(head =~= text@.subrange(a as int, end as int));
    let mut b = end;
    while b > a && char_is_white_space(text.get_char(b - 1))
        invariant
            start <= a <= b <= end,
            end <= text@.len(),
            forall|i: int| b <= i < end ==> is_white_space(#[trigger] text@[i]),
        decreases b - a,
    {
        b = b - 1;
    }
    proof {
        assert forall|i: int| b - a <= i < head.len() implies is_white_space(#[trigger] head[i]) by {
            assert(head[i] == text@[a + i]);
        }
        if b > a {
            assert(head[b - a - 1] == text@[b - 1]);
        }
        lemma_trim_end_take(head, b - a);
        assert(head.take(b - a) =~= text@.subrange(a as int, b as int));
    }
    (a, b)
}

/// The word of the line between `start` and `end`, appended to `words`.
fn push_line_word(text: &str, start: usize, end: usize, words: &mut Vec<String>)
    requires
        start <= end <= text@.len(),
    ensures
        string_views(final(words)@) == string_views(old(words)@) + line_word(text@.subrange(start as int, end as int)),
{
    let (a, b) = trimmed_bounds(text, start, end);
    let ghost t = trim(text@.subrange(start as int, end as int));
    if a < b && text.get_char(a) != '#' {
        let word = String::from_str(text.substring_char(a, b));
        let ghost before = words@;
        words.push(word);
        assert(t[0] == text@[a as int]);
        assert(string_views(words@) =~= string_views(before) + seq![t]);
    } else {
        if a < b {
            assert(t[0] == text@[a as int]);
        }
        assert(string_views(words@) =~= string_views(words@) + line_word(text@.subrange(start as int, end as int)));
    }
}

/// The words of a taxonomy word list: one per line, trimmed of white
/// space, skipping blank lines and lines that start with `#`.
pub fn parse_taxonomy_words(text: &str) -> (words: Vec<String>)
    ensures
        string_views(words@) == taxonomy_words(text@),
{
    let n = text.unicode_len();
    let mut words: Vec<String> = Vec::new();
    let mut start: usize = 0;
    let mut i: usize = 0;
    let ghost mut done: Seq<Seq<char>> = Seq::empty();
    assert(text@.take(0) =~= Seq::<char>::empty());
    assert(text@.subrange(0, 0) =~= Seq::<char>::empty());
    while i < n
        invariant
            n == text@.len(),
            start <= i <= n,
            split_lines(text@.take(i as int)) == done.push(text@.subrange(start as int, i as int)),
            string_views(words@) == line_words(done),
        decreases n - i,
    {
        let c = text.get_char(i);
        assert(text@.take(i + 1).drop_last() =~= text@.take(i as int));
        assert(text@.take(i + 1).last() == c);
        if c == '\n' {
            push_line_word(text, start, i, &mut words);
            proof {
                let line = text@.subrange(start as int, i as int);
                assert(line_words(done.push(line)) == line_words(done) + line_word(line)) by {
                    assert(done.push(line).drop_last() =~= done);
                }
                done = done.push(line);
                assert(text@.subrange(i + 1, i + 1) =~= Seq::<char>::empty());
            }
            start = i + 1;
        } else {
            proof {
                assert(text@.subrange(start as int, i as int).push(c) =~= text@.subrange(start as int, i + 1));
                assert(done.push(text@.subrange(start as int, i as int)).update(done.len() as int, text@.subrange(start as int, i + 1))
                    =~= done.push(text@.subrange(start as int, i + 1)));
            }
        }
        i = i + 1;
    }
    push_line_word(text, start, n, &mut words);
    proof {
        let line = text@.subrange(start as int, n as int);
        assert(text@.take(n as int) =~= text@);
        assert(done.push(line).drop_last() =~= done);
    }
    words
}

/// `words`, or the built-in `fallback` words when the list is empty.
pub fn fallback_taxonomy_words(words: Vec<String>, fallback: &[&str]) -> (result: Vec<String>)
    ensures
        string_views(result@) == (if words@.len() == 0 {
            fallback@.map_values(|w: &str| w@)
        } else {
            string_views(words@)
        }),
{
    if words.len() == 0 {
        let mut result: Vec<String> = Vec::new();
        let mut i: usize = 0;
        while i < fallback.len()
            invariant
                i <= fallback@.len(),
                string_views(result@) == fallback@.take(i as int).map_values(|w: &str| w@),
            decreases fallback@.len() - i,
        {
            let ghost before = result@;
            result.push(String::from_str(fallback[i]));
            assert(fallback@.take(i + 1).map_values(|w: &str| w@) =~= fallback@.take(i as int).map_values(|w: &str| w@).push(fallback@[i as int]@));
            assert(string_views(result@) =~= string_views(before).push(fallback@[i as int]@));
            i = i + 1;
        }
        assert(fallback@.take(fallback@.len() as int) =~= fallback@);
        result
    } else {
        words
    }
}

/// Word lists from which species and genus names are composed.
pub struct SpeciesNameBook {
    pub prefixes: Vec<String>,
    pub suffixes: Vec<String>,
    pub epithets: Vec<String>,
}

impl SpeciesNameBook {
    /// Every list holds at least one word.
    pub open spec fn inv(&self) -> bool {
        &&& self.prefixes@.len() > 0
        &&& self.suffixes@.len() > 0
        &&& self.epithets@.len() > 0
    }
}

/// The genus of a species: ids that differ only in the epithet slot share it.
pub open spec fn genus_key(species: u32) -> u32 {
    species / SPECIES_EPITHET_SLOTS
}

/// The body shape class of a species.
pub open spec fn morph_class(species: u32) -> u32 {
    species / SPECIES_CLASS_STRIDE
}

/// The genus name: a prefix and a suffix chosen by the genus key.
pub open spec fn genus_name(prefixes: Seq<Seq<char>>, suffixes: Seq<Seq<char>>, species: u32) -> Seq<char> {
    let g = genus_key(species) as int;
    prefixes[g % prefixes.len() as int] + suffixes[(g / prefixes.len() as int) % suffixes.len() as int]
}

/// The full species name: the genus name, a space and an epithet chosen by
/// the epithet slot and the genus key.
pub open spec fn species_name(prefixes: Seq<Seq<char>>, suffixes: Seq<Seq<char>>, epithets: Seq<Seq<char>>, species: u32) -> Seq<char> {
    let g = genus_key(species) as int;
    let e = (species % SPECIES_EPITHET_SLOTS) as int;
    genus_name(prefixes, suffixes, species) + seq![' '] + epithets[(e + g * 13) % epithets.len() as int]
}

/// Genus key of a species id.
pub fn species_genus_key(species: u32) -> (key: u32)
    ensures
        key == genus_key(species),
{
    species / SPECIES_EPITHET_SLOTS
}

/// Body shape class of a species id.
pub fn species_morph_class(species: u32) -> (class: u32)
    ensures
        class == morph_class(species),
{
    species / SPECIES_CLASS_STRIDE
}

/// Two different species of the same genus.
pub fn species_related(a: u32, b: u32) -> (related: bool)
    ensures
        related == (a != b && genus_key(a) == genus_key(b)),
{
    a != b && species_genus_key(a) == species_genus_key(b)
}

/// The genus name of a species.
pub fn species_genus_name_for(names: &SpeciesNameBook, species: u32) -> (name: String)
    requires
        names.inv(),
    ensures
        name@ == genus_name(string_views(names.prefixes@), string_views(names.suffixes@), species),
{
    let prefix_count = names.prefixes.len();
    let suffix_count = names.suffixes.len();
    let genus = species_genus_key(species) as usize;
    let mut name = String::from_str(names.prefixes[genus % prefix_count].as_str());
    name.append(names.suffixes[(genus / prefix_count) % suffix_count].as_str());
    name
}

/// The full name of a species, such as "Vitaum primus".
pub fn species_name_for(names: &SpeciesNameBook, species: u32) -> (name: String)
    requires
        names.inv(),
    ensures
        name@ == species_name(string_views(names.prefixes@), string_views(names.suffixes@), string_views(names.epithets@), species),
{
    let epithet_count = names.epithets.len();
    let genus = species_genus_key(species) as usize;
    let epithet_key = (species % SPECIES_EPITHET_SLOTS) as usize;
    let mut name = species_genus_name_for(names, species);
    let space = " ";
    proof {
        reveal_strlit(" ");
    }
    name.append(space);
    name.append(names.epithets[(epithet_key + genus * 13) % epithet_count].as_str());
    name
}

/// Builds the name book from the texts of the genus prefix, genus suffix
/// and species epithet word lists; an empty list falls back to built-in
/// words.
pub fn make_species_name_book(prefix_text: &str, suffix_text: &str, epithet_text: &str) -> (names: SpeciesNameBook)
    ensures
        names.inv(),
        taxonomy_words(prefix_text@).len() > 0 ==> string_views(names.prefixes@) == taxonomy_words(prefix_text@),
        taxonomy_words(suffix_text@).len() > 0 ==> string_views(names.suffixes@) == taxonomy_words(suffix_text@),
        taxonomy_words(epithet_text@).len() > 0 ==> string_views(names.epithets@) == taxonomy_words(epithet_text@),
        taxonomy_words(prefix_text@).len() == 0 ==> string_views(names.prefixes@) == seq!["Vita"@, "Luma"@, "Novi"@, "Cala"@],
        taxonomy_words(suffix_text@).len() == 0 ==> string_views(names.suffixes@) == seq!["um"@, "is"@, "on"@, "a"@],
        taxonomy_words(epithet_text@).len() == 0 ==> string_views(names.epithets@) == seq!["primus"@, "lucens"@, "minor"@, "flexus"@],
{
    let prefix_fallback: [&str; 4] = ["Vita", "Luma", "Novi", "Cala"];
    let suffix_fallback: [&str; 4] = ["um", "is", "on", "a"];
    let epithet_fallback: [&str; 4] = ["primus", "lucens", "minor", "flexus"];
    assert(prefix_fallback@.map_values(|w: &str| w@) =~= seq!["Vita"@, "Luma"@, "Novi"@, "Cala"@]);
    assert(suffix_fallback@.map_values(|w: &str| w@) =~= seq!["um"@, "is"@, "on"@, "a"@]);
    assert(epithet_fallback@.map_values(|w: &str| w@) =~= seq!["primus"@, "lucens"@, "minor"@, "flexus"@]);
    let prefixes = fallback_taxonomy_words(parse_taxonomy_words(prefix_text), prefix_fallback.as_slice());
    let suffixes = fallback_taxonomy_words(parse_taxonomy_words(suffix_text), suffix_fallback.as_slice());
    let epithets = fallback_taxonomy_words(parse_taxonomy_words(epithet_text), epithet_fallback.as_slice());
    assert(prefixes@.len() == string_views(prefixes@).len());
    assert(suffixes@.len() == string_views(suffixes@).len());
    assert(epithets@.len() == string_views(epithets@).len());
    SpeciesNameBook { prefixes, suffixes, epithets }
}

/// A species name is its genus name, a space and an epithet, and two
/// related species (different ids of one genus) carry the same genus name.
pub proof fn lemma_species_name_extends_genus(
    prefixes: Seq<Seq<char>>,
    suffixes: Seq<Seq<char>>,
    epithets: Seq<Seq<char>>,
    a: u32,
    b: u32,
)
    ensures
        species_name(prefixes, suffixes, epithets, a).take(genus_name(prefixes, suffixes, a).len() as int)
            == genus_name(prefixes, suffixes, a),
        species_name(prefixes, suffixes, epithets, a)[genus_name(prefixes, suffixes, a).len() as int] == ' ',
        (a != b && genus_key(a) == genus_key(b)) ==> genus_name(prefixes, suffixes, a) == genus_name(prefixes, suffixes, b),
{
    let g = genus_name(prefixes, suffixes, a);
    let n = species_name(prefixes, suffixes, epithets, a);
    assert(n.take(g.len() as int) =~= g);
}

/// A genus name is a prefix followed by a suffix. The first genus takes the
/// first prefix and suffix; each next genus takes the next prefix, and the
/// next suffix comes in each time the prefixes start over.
pub proof fn lemma_genus_name_steps(prefixes: Seq<Seq<char>>, suffixes: Seq<Seq<char>>, s: u32)
    requires
        prefixes.len() > 0,
        suffixes.len() > 0,
    ensures
        s < SPECIES_EPITHET_SLOTS ==> genus_name(prefixes, suffixes, s) == prefixes[0] + suffixes[0],
        s as int + SPECIES_EPITHET_SLOTS as int <= u32::MAX ==> exists|i: int, j: int|
            0 <= i < prefixes.len() && 0 <= j < suffixes.len() && {
            &&& genus_name(prefixes, suffixes, s) == #[trigger] prefixes[i] + #[trigger] suffixes[j]
            &&& genus_name(prefixes, suffixes, (s + SPECIES_EPITHET_SLOTS) as u32) == if i + 1 < prefixes.len() {
                prefixes[i + 1] + suffixes[j]
            } else {
                prefixes[0] + suffixes[(j + 1) % suffixes.len() as int]
            }
        },
{
    let np = prefixes.len() as int;
    let ns = suffixes.len() as int;
    let g = genus_key(s) as int;
    let i = g % np;
    let q = g / np;
    let j = q % ns;
    vstd::arithmetic::div_mod::lemma_fundamental_div_mod(g, np);
    assert(0 <= i < np && 0 <= j < ns);
    if s < SPECIES_EPITHET_SLOTS {
        assert(g == 0);
        vstd::arithmetic::div_mod::lemma_fundamental_div_mod_converse(g, np, 0, 0);
        vstd::arithmetic::div_mod::lemma_fundamental_div_mod_converse(0, ns, 0, 0);
        assert(genus_name(prefixes, suffixes, s) == prefixes[0] + suffixes[0]);
    }
    if s as int + SPECIES_EPITHET_SLOTS as int <= u32::MAX {
        let t = (s + SPECIES_EPITHET_SLOTS) as u32;
        let e = (s % SPECIES_EPITHET_SLOTS) as int;
        vstd::arithmetic::div_mod::lemma_fundamental_div_mod(s as int, 10000);
        vstd::arithmetic::div_mod::lemma_fundamental_div_mod_converse(t as int, 10000, g + 1, e);
        assert(genus_key(t) as int == g + 1);
        assert(genus_name(prefixes, suffixes, s) == prefixes[i] + suffixes[j]);
        if i + 1 < np {
            vstd::arithmetic::div_mod::lemma_fundamental_div_mod_converse(g + 1, np, q, i + 1);
            assert(genus_name(prefixes, suffixes, t) == prefixes[i + 1] + suffixes[j]);
        } else {
            assert(g + 1 == (q + 1) * np + 0) by (nonlinear_arith)
                requires
                    g == np * q + i,
                    i + 1 == np,
            ;
            vstd::arithmetic::div_mod::lemma_fundamental_div_mod_converse(g + 1, np, q + 1, 0);
            vstd::arithmetic::div_mod::lemma_add_mod_noop_right(1, q, ns);
            assert((j + 1) % ns == (q + 1) % ns);
            assert(genus_name(prefixes, suffixes, t) == prefixes[0] + suffixes[(j + 1) % ns]);
        }
    }
}

/// A species name is its genus name, a space and one of the epithets:
/// species of the first genus take the epithet of their slot, the next
/// slot of the same genus takes the next epithet, and the same slot in the
/// next genus takes the epithet 13 places further on, the list read round.
pub proof fn lemma_species_epithet_steps(
    prefixes: Seq<Seq<char>>,
    suffixes: Seq<Seq<char>>,
    epithets: Seq<Seq<char>>,
    s: u32,
)
    requires
        epithets.len() > 0,
    ensures
        s < SPECIES_EPITHET_SLOTS ==> species_name(prefixes, suffixes, epithets, s)
            == genus_name(prefixes, suffixes, s) + seq![' '] + epithets[s as int % epithets.len() as int],
        s < u32::MAX && s % SPECIES_EPITHET_SLOTS < SPECIES_EPITHET_SLOTS - 1 ==> exists|k: int| 0 <= k < epithets.len() && {
            &&& species_name(prefixes, suffixes, epithets, s) == genus_name(prefixes, suffixes, s) + seq![' '] + #[trigger] epithets[k]
            &&& species_name(prefixes, suffixes, epithets, (s + 1) as u32)
                == genus_name(prefixes, suffixes, (s + 1) as u32) + seq![' '] + epithets[(k + 1) % epithets.len() as int]
        },
        s as int + SPECIES_EPITHET_SLOTS as int <= u32::MAX ==> exists|k: int| 0 <= k < epithets.len() && {
            &&& species_name(prefixes, suffixes, epithets, s) == genus_name(prefixes, suffixes, s) + seq![' '] + #[trigger] epithets[k]
            &&& species_name(prefixes, suffixes, epithets, (s + SPECIES_EPITHET_SLOTS) as u32)
                == genus_name(prefixes, suffixes, (s + SPECIES_EPITHET_SLOTS) as u32) + seq![' '] + epithets[(k + 13) % epithets.len() as int]
        },
{
    let n = epithets.len() as int;
    let g = genus_key(s) as int;
    let e = (s % SPECIES_EPITHET_SLOTS) as int;
    let x = e + g * 13;
    let k = x % n;
    assert(0 <= k < n);
    assert(species_name(prefixes, suffixes, epithets, s) == genus_name(prefixes, suffixes, s) + seq![' '] + epithets[k]);
    vstd::arithmetic::div_mod::lemma_fundamental_div_mod(s as int, 10000);
    assert(s as int == g * 10000 + e);
    if s < u32::MAX && s % SPECIES_EPITHET_SLOTS < SPECIES_EPITHET_SLOTS - 1 {
        let t = (s + 1) as u32;
        vstd::arithmetic::div_mod::lemma_fundamental_div_mod_converse(t as int, 10000, g, e + 1);
        assert(genus_key(t) as int == g);
        assert((t % SPECIES_EPITHET_SLOTS) as int == e + 1);
        vstd::arithmetic::div_mod::lemma_add_mod_noop_right(1, x, n);
        assert((k + 1) % n == (x + 1) % n);
        assert(species_name(prefixes, suffixes, epithets, t)
            == genus_name(prefixes, suffixes, t) + seq![' '] + epithets[(k + 1) % n]);
    }
    if s as int + SPECIES_EPITHET_SLOTS as int <= u32::MAX {
        let t = (s + SPECIES_EPITHET_SLOTS) as u32;
        vstd::arithmetic::div_mod::lemma_fundamental_div_mod_converse(t as int, 10000, g + 1, e);
        assert(genus_key(t) as int == g + 1);
        assert((t % SPECIES_EPITHET_SLOTS) as int == e);
        vstd::arithmetic::div_mod::lemma_add_mod_noop_right(13, x, n);
        assert(e + (g + 1) * 13 == x + 13);
        assert((k + 13) % n == (x + 13) % n);
        assert(species_name(prefixes, suffixes, epithets, t)
            == genus_name(prefixes, suffixes, t) + seq![' '] + epithets[(k + 13) % n]);
    }
    if s < SPECIES_EPITHET_SLOTS {
        assert(g == 0);
        assert(e == s as int);
    }
}

/// Name of a body shape class.
pub open spec fn shape_label(class: u32) -> &'static str {
    if class == 0 { "Кокк" }
    else if class == 1 { "Бацилла" }
    else if class == 2 { "Филамент" }
    else if class == 3 { "Спирилла" }
    else if class == 4 { "Вибрион" }
    else if class == 5 { "Диплококк" }
    else if class == 6 { "Веретено" }
    else if class == 7 { "Кубоид" }
    else if class == 8 { "Триквитрум" }
    else if class == 9 { "Ставроморф" }
    else if class == 10 { "Ланцетовидная" }
    else if class == 11 { "Плакоид" }
    else { "Лобатум" }
}

/// Name of the body shape class of a species id.
pub fn species_shape_label_from_id(species: u32) -> (label: &'static str)
    ensures
        label == shape_label(morph_class(species)),
{
    match species_morph_class(species) {
        0 => "Кокк",
        1 => "Бацилла",
        2 => "Филамент",
        3 => "Спирилла",
        4 => "Вибрион",
        5 => "Диплококк",
        6 => "Веретено",
        7 => "Кубоид",
        8 => "Триквитрум",
        9 => "Ставроморф",
        10 => "Ланцетовидная",
        11 => "Плакоид",
        _ => "Лобатум",
    }
}

} // verus!
