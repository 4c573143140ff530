//! Image references: `[registry/]repository[:tag][@sha256:digest]`.

use crate::pieces::{
    is_whitespace, join, join_from, lemma_join_split, lemma_split_cons, lemma_split_pieces,
    lemma_trim_end, lemma_trim_fixed, lemma_trim_start, split, split_at_char, trim, trim_start,
    trimmed, views,
};
use crate::text::{
    chars_of, find, find_in, has_char, holds, last_index_of, lemma_find_from, lemma_find_none,
    lemma_last_index_of, lemma_last_index_of_is, occurs_at, rfind_char, slice, string_of,
};
use vstd::prelude::*;

verus! {

/// The registry of an image that names none.
pub open spec fn default_registry() -> Seq<char> {
    "registry-1.docker.io"@
}

/// The tag of an image that names none.
pub open spec fn default_tag() -> Seq<char> {
    "latest"@
}

/// What introduces a pinned digest.
pub open spec fn digest_mark() -> Seq<char> {
    "@sha256:"@
}

/// The three parts of an image reference.
#[derive(Debug, Clone, PartialEq)]
pub struct ParsedImageRef {
    pub registry: String,
    pub repository: String,
    pub tag: String,
}

/// The three parts of an image reference, as texts.
pub struct ImageRef {
    pub registry: Seq<char>,
    pub repository: Seq<char>,
    pub tag: Seq<char>,
}

impl View for ParsedImageRef {
    type V = ImageRef;

    open spec fn view(&self) -> ImageRef {
        ImageRef { registry: self.registry@, repository: self.repository@, tag: self.tag@ }
    }
}

/// The reference without a pinned digest: what stands before the first
/// `@sha256:`.
pub open spec fn strip_digest(s: Seq<char>) -> Seq<char> {
    match find(s, digest_mark()) {
        Some(i) => s.take(i),
        None => s,
    }
}

/// The index of the colon that introduces the tag: the last colon, if it
/// stands behind the last slash (behind index 0 where there is no slash).
pub open spec fn tag_colon(r: Seq<char>) -> Option<int> {
    match last_index_of(r, ':') {
        Some(c) => {
            let slash = match last_index_of(r, '/') {
                Some(p) => p,
                None => 0,
            };
            if c > slash {
                Some(c)
            } else {
                None
            }
        },
        None => None,
    }
}

/// The reference without its tag.
pub open spec fn name_part(r: Seq<char>) -> Seq<char> {
    match tag_colon(r) {
        Some(c) => r.take(c),
        None => r,
    }
}

/// The tag of the reference, `latest` where it has none.
pub open spec fn tag_part(r: Seq<char>) -> Seq<char> {
    match tag_colon(r) {
        Some(c) => r.skip(c + 1),
        None => default_tag(),
    }
}

/// A first segment that holds a dot or a colon names a registry.
pub open spec fn names_registry(segment: Seq<char>) -> bool {
    has_char(segment, '.') || has_char(segment, ':')
}

/// The parts of an image reference: the digest is dropped, the tag is what
/// follows the last colon behind the last slash, the registry is the first
/// segment if there are several and it holds a dot or a colon, and what
/// is left as the repository belongs to `library` where it is a single
/// segment.
pub open spec fn parse(s: Seq<char>) -> ImageRef {
    let r = strip_digest(trim(s));
    let name = name_part(r);
    let tag = tag_part(r);
    let parts = split(name, '/');
    if parts.len() >= 2 && names_registry(parts[0]) {
        let rest = parts.skip(1);
        let repository = if rest.len() == 1 {
            "library/"@ + rest[0]
        } else {
            join(rest, seq!['/'])
        };
        ImageRef { registry: parts[0], repository, tag }
    } else if parts.len() == 1 {
        ImageRef { registry: default_registry(), repository: "library/"@ + parts[0], tag }
    } else {
        ImageRef { registry: default_registry(), repository: name, tag }
    }
}

/// The reference that names all three parts: `registry/repository:tag`.
pub open spec fn canonical(p: ImageRef) -> Seq<char> {
    p.registry + seq!['/'] + p.repository + seq![':'] + p.tag
}

/// Parses an image reference into registry, repository and tag.
pub fn parse_image_reference(image_ref: &str) -> (r: ParsedImageRef)
    ensures
        r@ == parse(image_ref@),
{
    let raw = chars_of(image_ref);
    let t = trimmed(&raw);
    let mark = chars_of("@sha256:");
    let reference = match find_in(&t, &mark) {
        Some(pos) => slice(&t, 0, pos),
        None => t,
    };
    assert(reference@ == strip_digest(trim(image_ref@)));
    let last_colon = rfind_char(&reference, ':');
    let last_slash = rfind_char(&reference, '/');
    let mut name = slice(&reference, 0, reference.len());
    let mut tag = chars_of("latest");
    assert(reference@.subrange(0, reference.len() as int) == reference@);
    match last_colon {
        Some(colon_pos) => {
            let slash_pos = match last_slash {
                Some(p) => p,
                None => 0,
            };
            if colon_pos > slash_pos {
                tag = slice(&reference, colon_pos + 1, reference.len());
                name = slice(&reference, 0, colon_pos);
            }
        },
        None => {},
    }
    assert(name@ == name_part(reference@));
    assert(tag@ == tag_part(reference@));
    let parts = split_at_char(&name, '/');
    let slash = chars_of("/");
    proof {
        reveal_strlit("/");
        assert(slash@ == seq!['/']);
    }
    let mut registry = chars_of("registry-1.docker.io");
    let repository = if parts.len() >= 2 && (holds(&parts[0], '.') || holds(&parts[0], ':')) {
        registry = slice(&parts[0], 0, parts[0].len());
        assert(parts[0]@.subrange(0, parts[0].len() as int) == parts[0]@);
        if parts.len() == 2 {
            let mut repo = chars_of("library/");
            crate::text::extend(&mut repo, &parts[1]);
            assert(views(parts@).skip(1)[0] == parts@[1]@);
            repo
        } else {
            join_from(&parts, 1, &slash)
        }
    } else if parts.len() == 1 {
        let mut repo = chars_of("library/");
        crate::text::extend(&mut repo, &parts[0]);
        repo
    } else {
        name
    };
    proof {
        assert(views(parts@)[0] == parts@[0]@);
    }
    ParsedImageRef {
        registry: string_of(&registry),
        repository: string_of(&repository),
        tag: string_of(&tag),
    }
}


// ---------------------------------------------------------------------------
// The canonical form
// ---------------------------------------------------------------------------

/// `s` ends with `suffix`.
pub open spec fn ends_with(s: Seq<char>, suffix: Seq<char>) -> bool {
    suffix.len() <= s.len() && s.skip(s.len() - suffix.len()) == suffix
}

/// `pat` stands nowhere in `s`.
pub open spec fn free_of(s: Seq<char>, pat: Seq<char>) -> bool {
    forall|i: int| !occurs_at(s, pat, i)
}

/// `c` stands nowhere in `s`.
pub open spec fn without(s: Seq<char>, c: char) -> bool {
    forall|i: int| 0 <= i < s.len() ==> s[i] != c
}

proof fn lemma_piece_free(s: Seq<char>, pat: Seq<char>, a: int, b: int)
    requires
        free_of(s, pat),
        0 <= a <= b <= s.len(),
    ensures
        free_of(s.subrange(a, b), pat),
{
    let piece = s.subrange(a, b);
    assert forall|i: int| !occurs_at(piece, pat, i) by {
        if occurs_at(piece, pat, i) {
            assert(piece.subrange(i, i + pat.len()) == s.subrange(a + i, a + i + pat.len()));
            assert(occurs_at(s, pat, a + i));
        }
    }
}

proof fn lemma_strip_digest_free(t: Seq<char>)
    ensures
        free_of(strip_digest(t), digest_mark()),
        strip_digest(t).is_prefix_of(t),
{
    let mark = digest_mark();
    lemma_find_from(t, mark, 0);
    lemma_mark_chars();
    match find(t, mark) {
        Some(i) => {
            let r = t.take(i);
            assert forall|j: int| !occurs_at(r, mark, j) by {
                if occurs_at(r, mark, j) {
                    assert(r.subrange(j, j + mark.len()) == t.subrange(j, j + mark.len()));
                    assert(occurs_at(t, mark, j));
                }
            }
        },
        None => {
            assert forall|j: int| !occurs_at(t, mark, j) by {
                if occurs_at(t, mark, j) {
                    assert(0 <= j);
                }
            }
        },
    }
}

proof fn lemma_trim_front(s: Seq<char>)
    ensures
        trim(s).len() > 0 ==> !is_whitespace(trim(s)[0]),
{
    lemma_trim_start(s);
    lemma_trim_end(trim_start(s));
}

proof fn lemma_mark_chars()
    ensures
        digest_mark().len() == 8,
        digest_mark()[7] == ':',
        without(digest_mark(), '/'),
        forall|i: int| 0 <= i < 7 ==> digest_mark()[i] != ':',
        digest_mark().take(7) == "@sha256"@,
{
    reveal_strlit("@sha256:");
    reveal_strlit("@sha256");
    let m = digest_mark();
    assert(m.len() == 8);
    assert(m[0] == '@' && m[1] == 's' && m[2] == 'h' && m[3] == 'a' && m[4] == '2' && m[5] == '5'
        && m[6] == '6' && m[7] == ':');
    assert(m.take(7) =~= "@sha256"@);
}

proof fn lemma_default_registry()
    ensures
        default_registry().len() == 20,
        without(default_registry(), '/'),
        names_registry(default_registry()),
        !is_whitespace(default_registry()[0]),
        free_of(default_registry(), digest_mark()),
{
    reveal_strlit("registry-1.docker.io");
    lemma_mark_chars();
    let d = default_registry();
    assert(d.len() == 20);
    assert(d[0] == 'r' && d[1] == 'e' && d[2] == 'g' && d[3] == 'i' && d[4] == 's' && d[5] == 't'
        && d[6] == 'r' && d[7] == 'y' && d[8] == '-' && d[9] == '1' && d[10] == '.' && d[11]
        == 'd' && d[12] == 'o' && d[13] == 'c' && d[14] == 'k' && d[15] == 'e' && d[16] == 'r'
        && d[17] == '.' && d[18] == 'i' && d[19] == 'o');
    assert(d[10] == '.');
    assert(has_char(d, '.'));
    assert forall|i: int| !occurs_at(d, digest_mark(), i) by {
        if occurs_at(d, digest_mark(), i) {
            assert(d.subrange(i, i + 8)[0] == '@');
            assert(d[i] == '@');
        }
    }
}

proof fn lemma_default_tag()
    ensures
        without(default_tag(), ':'),
        without(default_tag(), '/'),
{
    reveal_strlit("latest");
    let t = default_tag();
    assert(t.len() == 6);
    assert(t[0] == 'l' && t[1] == 'a' && t[2] == 't' && t[3] == 'e' && t[4] == 's' && t[5] == 't');
}

proof fn lemma_tag_part(r: Seq<char>)
    ensures
        without(tag_part(r), ':'),
        without(tag_part(r), '/'),
        name_part(r).is_prefix_of(r),
{
    lemma_default_tag();
    lemma_last_index_of(r, ':');
    lemma_last_index_of(r, '/');
    match tag_colon(r) {
        Some(c) => {
            let tag = r.skip(c + 1);
            assert forall|i: int| 0 <= i < tag.len() implies tag[i] != ':' && tag[i] != '/' by {
                assert(tag[i] == r[c + 1 + i]);
            }
        },
        None => {},
    }
}

proof fn lemma_first_piece(name: Seq<char>)
    ensures
        split(name, '/').len() >= 1,
        split(name, '/')[0].is_prefix_of(name),
        split(name, '/').len() == 1 ==> split(name, '/')[0] == name,
        split(name, '/').len() >= 2 ==> name == split(name, '/')[0] + seq!['/'] + join(
            split(name, '/').skip(1),
            seq!['/'],
        ),
{
    let parts = split(name, '/');
    lemma_split_pieces(name, '/');
    lemma_join_split(name, '/');
    crate::text::lemma_index_from(name, '/', 0);
    if parts.len() >= 2 {
        assert(parts.drop_first() == parts.skip(1));
    }
}

/// What holds of the parts of every parsed reference.
pub proof fn lemma_parse_parts(s: Seq<char>)
    ensures
        without(parse(s).registry, '/'),
        names_registry(parse(s).registry),
        parse(s).registry.len() > 0,
        !is_whitespace(parse(s).registry[0]),
        free_of(parse(s).registry, digest_mark()),
        free_of(parse(s).repository, digest_mark()),
        has_char(parse(s).repository, '/'),
        without(parse(s).tag, ':'),
        without(parse(s).tag, '/'),
{
    let t = trim(s);
    let r = strip_digest(t);
    let name = name_part(r);
    let parts = split(name, '/');
    let mark = digest_mark();
    lemma_strip_digest_free(t);
    lemma_trim_front(s);
    lemma_tag_part(r);
    lemma_first_piece(name);
    lemma_split_pieces(name, '/');
    lemma_default_registry();
    lemma_mark_chars();
    assert(name == r.subrange(0, name.len() as int));
    lemma_piece_free(r, mark, 0, name.len() as int);
    if parts.len() >= 2 && names_registry(parts[0]) {
        let reg = parts[0];
        let rest = parts.skip(1);
        let tail = join(rest, seq!['/']);
        assert(reg.len() > 0);
        assert(reg[0] == name[0] && name[0] == r[0] && r[0] == t[0]);
        assert(reg == name.subrange(0, reg.len() as int));
        lemma_piece_free(name, mark, 0, reg.len() as int);
        let from: int = (reg.len() + 1) as int;
        assert(tail == name.subrange(from, name.len() as int));
        lemma_piece_free(name, mark, from, name.len() as int);
        if rest.len() == 1 {
            assert(tail == rest[0]);
            lemma_library_free(tail);
        } else {
            let at = rest[0].len() as int;
            assert(tail == rest[0] + seq!['/'] + join(rest.drop_first(), seq!['/']));
            assert(tail[at] == '/');
        }
    } else if parts.len() == 1 {
        lemma_library_free(name);
    } else {
        let at = parts[0].len() as int;
        assert(name[at] == '/');
    }
}

/// A repository under `library` holds a slash, and no digest mark where
/// the segment holds none.
proof fn lemma_library_free(segment: Seq<char>)
    requires
        free_of(segment, digest_mark()),
    ensures
        free_of("library/"@ + segment, digest_mark()),
        has_char("library/"@ + segment, '/'),
{
    reveal_strlit("library/");
    lemma_mark_chars();
    let mark = digest_mark();
    let lib = "library/"@;
    assert(lib.len() == 8 && lib[7] == '/');
    let repo = lib + segment;
    assert(repo[7] == '/');
    assert forall|i: int| !occurs_at(repo, mark, i) by {
        if occurs_at(repo, mark, i) {
            if i <= 7 {
                assert(repo.subrange(i, i + 8)[7 - i] == repo[7]);
                assert(mark[7 - i] == '/');
            } else {
                assert(repo.subrange(i, i + 8) == segment.subrange(i - 8, i));
                assert(occurs_at(segment, mark, i - 8));
            }
        }
    }
}

/// Parsing the canonical form of a parsed reference gives the same three
/// parts again, unless the repository ends in `@sha256` (the colon before
/// the tag would then complete a digest mark) or the tag ends in white
/// space (which the second parse would trim).
pub proof fn lemma_parse_round_trip(s: Seq<char>)
    requires
        !ends_with(parse(s).repository, "@sha256"@),
        parse(s).tag.len() > 0 ==> !is_whitespace(parse(s).tag.last()),
    ensures
        parse(canonical(parse(s))) == parse(s),
{
    let p = parse(s);
    let reg = p.registry;
    let repo = p.repository;
    let tag = p.tag;
    let c = canonical(p);
    let mark = digest_mark();
    lemma_parse_parts(s);
    lemma_mark_chars();
    let slash_at = reg.len() as int;
    let colon_at: int = (reg.len() + 1 + repo.len()) as int;
    assert(c.len() == colon_at + 1 + tag.len());
    assert(c[slash_at] == '/');
    assert(c[colon_at] == ':');
    assert forall|i: int| 0 <= i < slash_at implies c[i] == reg[i] by {}
    assert forall|i: int| slash_at < i < colon_at implies c[i] == repo[i - slash_at - 1] by {}
    assert forall|i: int| colon_at < i < c.len() implies c[i] == tag[i - colon_at - 1] by {}
    // the canonical form is its own trim
    assert(c[0] == reg[0]);
    assert(!is_whitespace(c.last())) by {
        if tag.len() > 0 {
            assert(c.last() == tag.last());
        } else {
            assert(c.last() == ':');
        }
    }
    lemma_trim_fixed(c);
    // and holds no digest mark
    assert forall|i: int| !occurs_at(c, mark, i) by {
        if occurs_at(c, mark, i) {
            let w = c.subrange(i, i + 8);
            assert(w == mark);
            if i + 8 <= slash_at {
                assert(w == reg.subrange(i, i + 8));
                assert(occurs_at(reg, mark, i));
            } else if i <= slash_at {
                assert(w[slash_at - i] == c[slash_at]);
                assert(mark[slash_at - i] == '/');
            } else if i + 8 <= colon_at {
                assert(w == repo.subrange(i - slash_at - 1, i - slash_at - 1 + 8));
                assert(occurs_at(repo, mark, i - slash_at - 1));
            } else if i + 7 == colon_at {
                assert(w.take(7) == repo.skip(repo.len() - 7));
                assert(ends_with(repo, "@sha256"@));
            } else if i <= colon_at {
                assert(w[colon_at - i] == c[colon_at]);
                assert(mark[colon_at - i] == ':');
            } else {
                assert(w[7] == c[i + 7]);
                assert(c[i + 7] == tag[i + 7 - colon_at - 1]);
            }
        }
    }
    lemma_find_none(c, mark);
    assert(strip_digest(trim(c)) == c);
    // the tag is found again
    lemma_last_index_of_is(c, ':', colon_at);
    lemma_last_index_of(c, '/');
    assert(last_index_of(c, '/') is Some);
    assert(tag_colon(c) == Some(colon_at));
    let name = reg + seq!['/'] + repo;
    assert(c.take(colon_at) == name);
    assert(c.skip(colon_at + 1) == tag);
    // and so are registry and repository
    lemma_split_cons(reg, '/', repo);
    lemma_split_pieces(repo, '/');
    lemma_join_split(repo, '/');
    let parts = split(name, '/');
    assert(parts == seq![reg] + split(repo, '/'));
    assert(parts[0] == reg);
    assert(parts.skip(1) == split(repo, '/'));
    crate::text::lemma_index_from(repo, '/', 0);
    let cut = crate::text::index_of(repo, '/').unwrap();
    lemma_split_pieces(repo.skip(cut + 1), '/');
    assert(split(repo, '/').len() >= 2);
}
} // verus!
