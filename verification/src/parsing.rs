//! Reading what the user types: replies to prompts, `key=value` arguments, list
//! filters, author strings, and names taken from URLs.
use vstd::prelude::*;
use crate::error::{CliError, CliResult};
use crate::strmap::StrMap;
use crate::text::{
    chars_equal_str, chars_of, decimal, decimal_text, lower, normalized_reply, owned, parse_usize,
    parse_usize_spec, push_text, string_from_chars, string_from_range, trim, trim_bounds,
};

verus! {

/// Position of the first `c` in `s`.
pub open spec fn first_pos(s: Seq<char>, c: char) -> Option<int>
    decreases s.len(),
{
    if s.len() == 0 {
        None
    } else if s[0] == c {
        Some(0)
    } else {
        match first_pos(s.drop_first(), c) {
            Some(i) => Some(i + 1),
            None => None,
        }
    }
}

/// Position of the last `c` in `s`.
pub open spec fn last_pos(s: Seq<char>, c: char) -> Option<int>
    decreases s.len(),
{
    if s.len() == 0 {
        None
    } else if s.last() == c {
        Some(s.len() - 1)
    } else {
        last_pos(s.drop_last(), c)
    }
}

proof fn lemma_first_pos(s: Seq<char>, c: char, i: int)
    requires
        0 <= i <= s.len(),
        forall|j: int| 0 <= j < i ==> s[j] != c,
    ensures
        i < s.len() && s[i] == c ==> first_pos(s, c) == Some(i),
        i == s.len() ==> first_pos(s, c) is None,
    decreases i,
{
    if i > 0 {
        lemma_first_pos(s.drop_first(), c, i - 1);
    }
}

proof fn lemma_last_pos(s: Seq<char>, c: char, i: int)
    requires
        -1 <= i < s.len(),
        forall|j: int| i < j < s.len() ==> s[j] != c,
    ensures
        i >= 0 && s[i] == c ==> last_pos(s, c) == Some(i),
        i == -1 ==> last_pos(s, c) is None,
    decreases s.len(),
{
    if s.len() > 0 && i < s.len() - 1 {
        lemma_last_pos(s.drop_last(), c, i);
    }
}

/// Finds the first `c` in `s`.
pub fn find_char(s: &[char], c: char) -> (res: Option<usize>)
    ensures
        match res {
            Some(i) => first_pos(s@, c) == Some(i as int) && i < s@.len() && s@[i as int] == c,
            None => first_pos(s@, c) is None,
        },
{
    let mut i: usize = 0;
    while i < s.len()
        invariant
            i <= s@.len(),
            forall|j: int| 0 <= j < i ==> s@[j] != c,
        decreases s@.len() - i,
    {
        if s[i] == c {
            proof {
                lemma_first_pos(s@, c, i as int);
            }
            return Some(i);
        }
        i = i + 1;
    }
    proof {
        lemma_first_pos(s@, c, i as int);
    }
    None
}

/// Finds the last `c` in `s`.
pub fn rfind_char(s: &[char], c: char) -> (res: Option<usize>)
    ensures
        match res {
            Some(i) => last_pos(s@, c) == Some(i as int) && i < s@.len() && s@[i as int] == c,
            None => last_pos(s@, c) is None,
        },
{
    let mut i: usize = s.len();
    while i > 0
        invariant
            i <= s@.len(),
            forall|j: int| i <= j < s@.len() ==> s@[j] != c,
        decreases i,
    {
        if s[i - 1] == c {
            proof {
                lemma_last_pos(s@, c, i - 1);
            }
            return Some(i - 1);
        }
        i = i - 1;
    }
    proof {
        lemma_last_pos(s@, c, -1);
    }
    None
}

/// The pieces of `s` between occurrences of `sep` (`str::split`): as many pieces as
/// separators plus one, possibly empty.
pub open spec fn split_on(s: Seq<char>, sep: char) -> Seq<Seq<char>>
    decreases s.len(),
{
    if s.len() == 0 {
        seq![Seq::empty()]
    } else {
        let p = split_on(s.drop_last(), sep);
        if s.last() == sep {
            p.push(Seq::empty())
        } else {
            p.update(p.len() - 1, p[p.len() - 1].push(s.last()))
        }
    }
}

proof fn lemma_split_nonempty(s: Seq<char>, sep: char)
    ensures
        split_on(s, sep).len() >= 1,
    decreases s.len(),
{
    if s.len() > 0 {
        lemma_split_nonempty(s.drop_last(), sep);
    }
}

/// The views of a list of character vectors.
pub open spec fn piece_views(v: Seq<Vec<char>>) -> Seq<Seq<char>> {
    v.map_values(|p: Vec<char>| p@)
}

/// `str::split` on one character.
pub fn split_chars(s: &[char], sep: char) -> (res: Vec<Vec<char>>)
    ensures
        piece_views(res@) == split_on(s@, sep),
{
    let mut done: Vec<Vec<char>> = Vec::new();
    let mut cur: Vec<char> = Vec::new();
    let mut i: usize = 0;
    proof {
        assert(s@.take(0) =~= Seq::<char>::empty());
        assert(piece_views(done@).push(cur@) =~= split_on(s@.take(0), sep));
    }
    while i < s.len()
        invariant
            i <= s@.len(),
            piece_views(done@).push(cur@) == split_on(s@.take(i as int), sep),
        decreases s@.len() - i,
    {
        let c = s[i];
        let ghost before = s@.take(i as int);
        proof {
            let t = s@.take(i + 1);
            assert(t.drop_last() =~= before);
            assert(t.last() == c);
            lemma_split_nonempty(before, sep);
        }
        if c == sep {
            let piece = cur;
            done.push(piece);
            cur = Vec::new();
            proof {
                assert(piece_views(done@).push(cur@) =~= split_on(before, sep).push(Seq::empty()));
            }
        } else {
            cur.push(c);
            proof {
                let p = split_on(before, sep);
                assert(piece_views(done@).push(cur@) =~= p.update(p.len() - 1, p[p.len() - 1].push(c)));
            }
        }
        i = i + 1;
    }
    done.push(cur);
    proof {
        assert(s@.take(i as int) =~= s@);
        assert(piece_views(done@) =~= split_on(s@, sep));
    }
    done
}

/// What the reply to the download prompt selects.
pub enum Selection {
    /// "n" or "no": download nothing.
    Cancel,
    /// The positions (from zero) of the files to download, in the order given.
    Files(Vec<usize>),
}

/// The position a piece of the reply names: its number less one, when it is a
/// number from one up to the count of files. (The number zero names nothing.)
pub open spec fn picked(piece: Seq<char>, count: nat) -> Option<nat> {
    match parse_usize_spec(trim(piece)) {
        Some(n) => if 1 <= n && n - 1 < count {
            Some((n - 1) as nat)
        } else {
            None
        },
        None => None,
    }
}

/// The positions that a list of pieces names, in order.
pub open spec fn picks(pieces: Seq<Seq<char>>, count: nat) -> Seq<nat>
    decreases pieces.len(),
{
    if pieces.len() == 0 {
        Seq::empty()
    } else {
        let rest = picks(pieces.drop_last(), count);
        match picked(pieces.last(), count) {
            Some(p) => rest.push(p),
            None => rest,
        }
    }
}

/// Every position below `count`, in order.
pub open spec fn all_positions(count: nat) -> Seq<nat> {
    Seq::new(count, |i: int| i as nat)
}

/// What a reply selects: "n"/"no" cancels; "y", "yes" or nothing selects every file;
/// otherwise the comma-separated numbers (from one) that name files. The reply is
/// read trimmed and in lower case.
pub open spec fn selection_spec(reply: Seq<char>, count: nat) -> Option<Seq<nat>> {
    let c = lower(trim(reply));
    if c == "n"@ || c == "no"@ {
        None
    } else if c == "y"@ || c == "yes"@ || c.len() == 0 {
        Some(all_positions(count))
    } else {
        Some(picks(split_on(c, ','), count))
    }
}

/// The positions as natural numbers.
pub open spec fn positions(v: Seq<usize>) -> Seq<nat> {
    v.map_values(|i: usize| i as nat)
}

/// Reads the reply to "Download? [Y/n/1,2,3]" for `count` listed files.
pub fn parse_selection(reply: &str, count: usize) -> (res: Selection)
    ensures
        match selection_spec(reply@, count as nat) {
            None => res is Cancel,
            Some(ps) => res is Files && positions(res->Files_0@) == ps,
        },
{
    let c = normalized_reply(reply);
    if chars_equal_str(c.as_slice(), "n") || chars_equal_str(c.as_slice(), "no") {
        return Selection::Cancel;
    }
    if chars_equal_str(c.as_slice(), "y") || chars_equal_str(c.as_slice(), "yes") || c.len() == 0 {
        let mut all: Vec<usize> = Vec::new();
        let mut i: usize = 0;
        while i < count
            invariant
                i <= count,
                all@.len() == i,
                forall|k: int| 0 <= k < i ==> all@[k] == k,
            decreases count - i,
        {
            all.push(i);
            i = i + 1;
        }
        proof {
            assert(positions(all@) =~= all_positions(count as nat));
        }
        return Selection::Files(all);
    }
    let pieces = split_chars(c.as_slice(), ',');
    let mut chosen: Vec<usize> = Vec::new();
    let mut j: usize = 0;
    while j < pieces.len()
        invariant
            j <= pieces@.len(),
            piece_views(pieces@) == split_on(c@, ','),
            positions(chosen@) == picks(piece_views(pieces@).take(j as int), count as nat),
        decreases pieces@.len() - j,
    {
        let piece = &pieces[j];
        let (a, b) = trim_bounds(piece.as_slice());
        let body = crate::text::chars_of(string_from_range(piece.as_slice(), a, b).as_str());
        let n = parse_usize(body.as_slice());
        proof {
            let t = piece_views(pieces@).take(j + 1);
            assert(t.drop_last() =~= piece_views(pieces@).take(j as int));
            assert(t.last() == piece@);
        }
        match n {
            Some(v) => if v >= 1 && v - 1 < count {
                chosen.push(v - 1);
                proof {
                    assert(positions(chosen@) =~= picks(piece_views(pieces@).take(j + 1), count as nat));
                }
            },
            None => {},
        }
        j = j + 1;
    }
    proof {
        assert(piece_views(pieces@).take(j as int) =~= piece_views(pieces@));
    }
    Selection::Files(chosen)
}


proof fn lemma_picks_in_range(pieces: Seq<Seq<char>>, count: nat)
    ensures
        forall|i: int| 0 <= i < picks(pieces, count).len() ==> #[trigger] picks(pieces, count)[i] < count,
    decreases pieces.len(),
{
    if pieces.len() > 0 {
        let rest = picks(pieces.drop_last(), count);
        lemma_picks_in_range(pieces.drop_last(), count);
        match picked(pieces.last(), count) {
            Some(p) => {
                assert forall|i: int| 0 <= i < rest.push(p).len() implies #[trigger] rest.push(p)[i] < count by {
                    if i < rest.len() {
                        assert(rest.push(p)[i] == rest[i]);
                    }
                }
            },
            None => {},
        }
    }
}

/// Whatever the reply, every file it selects is one of those listed.
pub proof fn law_selection_in_range(reply: Seq<char>, count: nat)
    ensures
        selection_spec(reply, count) matches Some(ps) ==> forall|i: int|
            0 <= i < ps.len() ==> #[trigger] ps[i] < count,
{
    let c = lower(trim(reply));
    lemma_picks_in_range(split_on(c, ','), count);
}

/// A reply that confirms: "y" or "yes", trimmed and in any case.
pub open spec fn confirms(reply: Seq<char>) -> bool {
    let c = lower(trim(reply));
    c == "y"@ || c == "yes"@
}

/// Whether the reply to a yes/no prompt (default no) confirms.
pub fn is_confirmation(reply: &str) -> (res: bool)
    ensures
        res == confirms(reply@),
{
    let c = normalized_reply(reply);
    chars_equal_str(c.as_slice(), "y") || chars_equal_str(c.as_slice(), "yes")
}

/// The part of `s` after its last `/`, or all of `s` when it has none
/// (`s.rsplit('/').next()`).
pub open spec fn last_segment(s: Seq<char>) -> Seq<char> {
    match last_pos(s, '/') {
        Some(i) => s.subrange(i + 1, s.len() as int),
        None => s,
    }
}

/// The last segment of a URL path.
pub fn url_last_segment(url: &str) -> (res: String)
    ensures
        res@ == last_segment(url@),
{
    let cs = chars_of(url);
    match rfind_char(cs.as_slice(), '/') {
        Some(i) => string_from_range(cs.as_slice(), i + 1, cs.len()),
        None => {
            let r = string_from_chars(cs.as_slice());
            r
        },
    }
}

/// The name under which `file download` saves a URL when no output path is given:
/// its last segment, or "downloaded_file" when that is empty.
pub open spec fn download_name(url: Seq<char>) -> Seq<char> {
    if last_segment(url).len() > 0 {
        last_segment(url)
    } else {
        "downloaded_file"@
    }
}

/// The default file name for `file download`.
pub fn default_download_name(url: &str) -> (res: String)
    ensures
        res@ == download_name(url@),
{
    let seg = url_last_segment(url);
    if seg.as_str().is_empty() {
        owned("downloaded_file")
    } else {
        seg
    }
}

/// The largest file `file upload` accepts, in bytes (50 MiB).
pub open spec fn max_upload_bytes() -> nat {
    52428800
}

/// The message for a file that is too large.
pub open spec fn too_large_message(len: nat) -> Seq<char> {
    "File too large ("@ + decimal(len) + " bytes; max 52428800)"@
}

/// Refuses a file larger than 50 MiB.
pub fn check_upload_size(len: u64) -> (res: CliResult<()>)
    ensures
        len <= max_upload_bytes() ==> res is Ok,
        len > max_upload_bytes() ==> res is Err && res->Err_0 is Usage && res->Err_0->Usage_0@
            == too_large_message(len as nat),
{
    if len > 52428800 {
        let mut m = owned("File too large (");
        push_text(&mut m, decimal_text(len).as_str());
        push_text(&mut m, " bytes; max 52428800)");
        proof {
            assert(m@ =~= too_large_message(len as nat));
        }
        return Err(CliError::Usage(m));
    }
    Ok(())
}

/// The key and value of a `key=value` argument: around its first `=`.
pub open spec fn key_value(arg: Seq<char>) -> Option<(Seq<char>, Seq<char>)> {
    match first_pos(arg, '=') {
        Some(i) => Some((arg.subrange(0, i), arg.subrange(i + 1, arg.len() as int))),
        None => None,
    }
}

/// The first argument that is not `key=value`, if any.
pub open spec fn first_bad_arg(args: Seq<Seq<char>>) -> Option<Seq<char>>
    decreases args.len(),
{
    if args.len() == 0 {
        None
    } else if key_value(args[0]) is None {
        Some(args[0])
    } else {
        first_bad_arg(args.drop_first())
    }
}

/// The parameters that `key=value` arguments set; a later key wins.
pub open spec fn arg_params(args: Seq<Seq<char>>) -> Map<Seq<char>, Seq<char>>
    decreases args.len(),
{
    if args.len() == 0 {
        Map::empty()
    } else {
        let m = arg_params(args.drop_last());
        match key_value(args.last()) {
            Some(kv) => m.insert(kv.0, kv.1),
            None => m,
        }
    }
}

/// The message for an argument that is not `key=value`.
pub open spec fn bad_arg_message(arg: Seq<char>) -> Seq<char> {
    "Invalid argument `"@ + arg + "`. Use key=value format."@
}

/// The values of a map of strings as texts.
pub open spec fn map_texts(m: Map<Seq<char>, String>) -> Map<Seq<char>, Seq<char>> {
    m.map_values(|v: String| v@)
}

proof fn lemma_first_bad_prefix(args: Seq<Seq<char>>, k: int)
    requires
        0 <= k < args.len(),
        forall|j: int| 0 <= j < k ==> key_value(#[trigger] args[j]) is Some,
        key_value(args[k]) is None,
    ensures
        first_bad_arg(args) == Some(args[k]),
    decreases k,
{
    if k > 0 {
        lemma_first_bad_prefix(args.drop_first(), k - 1);
    }
}

proof fn lemma_no_bad(args: Seq<Seq<char>>)
    requires
        forall|j: int| 0 <= j < args.len() ==> key_value(#[trigger] args[j]) is Some,
    ensures
        first_bad_arg(args) is None,
    decreases args.len(),
{
    if args.len() > 0 {
        lemma_no_bad(args.drop_first());
    }
}

/// The parameters of `call-method`: each argument split at its first `=` into a key
/// and a value, a later key winning; an argument without `=` is a usage error.
pub fn parse_method_args(args: &Option<Vec<String>>) -> (res: CliResult<StrMap<String>>)
    ensures
        ({
            let a = match args {
                Some(v) => v@.map_values(|s: String| s@),
                None => Seq::empty(),
            };
            match first_bad_arg(a) {
                Some(bad) => res is Err && res->Err_0 is Usage && res->Err_0->Usage_0@
                    == bad_arg_message(bad),
                None => res is Ok && map_texts(res->Ok_0@) == arg_params(a),
            }
        }),
{
    let mut params: StrMap<String> = StrMap::new();
    match args {
        None => {
            proof {
                assert(map_texts(params@) =~= Map::<Seq<char>, Seq<char>>::empty());
            }
            Ok(params)
        },
        Some(v) => {
            let ghost a = v@.map_values(|s: String| s@);
            let mut i: usize = 0;
            proof {
                assert(map_texts(params@) =~= arg_params(a.take(0)));
            }
            while i < v.len()
                invariant
                    i <= v@.len(),
                    *args == Some(*v),
                    a == v@.map_values(|s: String| s@),
                    forall|j: int| 0 <= j < i ==> key_value(#[trigger] a[j]) is Some,
                    map_texts(params@) == arg_params(a.take(i as int)),
                decreases v@.len() - i,
            {
                let cs = chars_of(v[i].as_str());
                let ghost t = a.take(i + 1);
                proof {
                    assert(t.drop_last() =~= a.take(i as int));
                    assert(t.last() == cs@);
                }
                match find_char(cs.as_slice(), '=') {
                    Some(p) => {
                        let n = cs.len();
                        let k = string_from_range(cs.as_slice(), 0, p);
                        let val = string_from_range(cs.as_slice(), p + 1, n);
                        params.insert(k, val);
                        proof {
                            assert(map_texts(params@) =~= arg_params(t));
                        }
                    },
                    None => {
                        proof {
                            assert(a[i as int] == cs@);
                            assert(key_value(a[i as int]) is None);
                            lemma_first_bad_prefix(a, i as int);
                            assert(first_bad_arg(a) == Some(a[i as int]));
                        }
                        let mut m = owned("Invalid argument `");
                        push_text(&mut m, v[i].as_str());
                        push_text(&mut m, "`. Use key=value format.");
                        proof {
                            assert(m@ =~= bad_arg_message(a[i as int]));
                        }
                        return Err(CliError::Usage(m));
                    },
                }
                i = i + 1;
            }
            proof {
                assert(a.take(i as int) =~= a);
                lemma_no_bad(a);
            }
            Ok(params)
        },
    }
}

/// A list filter `FIELD,OP,VALUE`: the text up to the first comma, up to the second,
/// and the rest, which may hold further commas (`splitn(3, ',')`).
pub open spec fn filter_parts(f: Seq<char>) -> Option<(Seq<char>, Seq<char>, Seq<char>)> {
    match first_pos(f, ',') {
        None => None,
        Some(a) => {
            let rest = f.subrange(a + 1, f.len() as int);
            match first_pos(rest, ',') {
                None => None,
                Some(b) => Some((f.subrange(0, a), rest.subrange(0, b), rest.subrange(b + 1, rest.len() as int))),
            }
        },
    }
}

/// The message for a filter that is not `FIELD,OP,VALUE`.
pub open spec fn bad_filter_message(f: Seq<char>) -> Seq<char> {
    "Invalid --filter `"@ + f + "`. Expected FIELD,OP,VALUE"@
}

/// A list filter: field, operator and value.
pub struct Filter {
    pub field: String,
    pub op: String,
    pub value: String,
}

/// Reads a `--filter FIELD,OP,VALUE` argument.
pub fn parse_filter(f: &str) -> (res: CliResult<Filter>)
    ensures
        match filter_parts(f@) {
            Some(p) => res is Ok && res->Ok_0.field@ == p.0 && res->Ok_0.op@ == p.1
                && res->Ok_0.value@ == p.2,
            None => res is Err && res->Err_0 is Usage && res->Err_0->Usage_0@ == bad_filter_message(f@),
        },
{
    let cs = chars_of(f);
    let bad = {
        let mut m = owned("Invalid --filter `");
        push_text(&mut m, f);
        push_text(&mut m, "`. Expected FIELD,OP,VALUE");
        proof {
            assert(m@ =~= bad_filter_message(f@));
        }
        m
    };
    let a = match find_char(cs.as_slice(), ',') {
        Some(a) => a,
        None => return Err(CliError::Usage(bad)),
    };
    let n = cs.len();
    let rest = chars_of(string_from_range(cs.as_slice(), a + 1, n).as_str());
    let b = match find_char(rest.as_slice(), ',') {
        Some(b) => b,
        None => return Err(CliError::Usage(bad)),
    };
    Ok(Filter {
        field: string_from_range(cs.as_slice(), 0, a),
        op: string_from_range(rest.as_slice(), 0, b),
        value: string_from_range(rest.as_slice(), b + 1, rest.len()),
    })
}

/// The first author of a Cargo authors string (`name <email>` entries separated by
/// colons): the first entry (the text before the first colon), trimmed; when it holds `<` followed later by `>`, the
/// trimmed text before `<` and the trimmed text between them, else the entry and an
/// empty email.
pub open spec fn first_author(authors: Seq<char>) -> (Seq<char>, Seq<char>) {
    let entry = trim(
        match first_pos(authors, ':') {
            Some(i) => authors.subrange(0, i),
            None => authors,
        },
    );
    match first_pos(entry, '<') {
        Some(p) => {
            let rest = entry.subrange(p + 1, entry.len() as int);
            match first_pos(rest, '>') {
                Some(e) => (trim(entry.subrange(0, p)), trim(rest.subrange(0, e))),
                None => (entry, Seq::empty()),
            }
        },
        None => (entry, Seq::empty()),
    }
}

/// Splits a Cargo authors string into the first author's name and email.
pub fn parse_first_author(authors: &str) -> (res: (String, String))
    ensures
        (res.0@, res.1@) == first_author(authors@),
{
    let cs = chars_of(authors);
    let entry_end = match find_char(cs.as_slice(), ':') {
        Some(i) => i,
        None => cs.len(),
    };
    proof {
        if first_pos(cs@, ':') is None {
            assert(cs@.subrange(0, cs@.len() as int) =~= cs@);
        }
    }
    let raw = string_from_range(cs.as_slice(), 0, entry_end);
    let rc = chars_of(raw.as_str());
    let (a, b) = trim_bounds(rc.as_slice());
    let entry = chars_of(string_from_range(rc.as_slice(), a, b).as_str());
    let ghost e = entry@;
    if let Some(p) = find_char(entry.as_slice(), '<') {
        let rest = chars_of(string_from_range(entry.as_slice(), p + 1, entry.len()).as_str());
        if let Some(q) = find_char(rest.as_slice(), '>') {
            let name_raw = chars_of(string_from_range(entry.as_slice(), 0, p).as_str());
            let (na, nb) = trim_bounds(name_raw.as_slice());
            let email_raw = chars_of(string_from_range(rest.as_slice(), 0, q).as_str());
            let (ea, eb) = trim_bounds(email_raw.as_slice());
            return (
                string_from_range(name_raw.as_slice(), na, nb),
                string_from_range(email_raw.as_slice(), ea, eb),
            );
        }
    }
    (string_from_chars(entry.as_slice()), String::new())
}

/// Name of the file that `kp` saves the receivables statement to.
pub open spec fn statement_file_name(no_perjanjian: Seq<char>) -> Seq<char> {
    "Rincian_Sisa_Piutang_"@ + no_perjanjian + ".pdf"@
}

/// The file name for the receivables statement of an agreement.
pub fn statement_filename(no_perjanjian: &str) -> (res: String)
    ensures
        res@ == statement_file_name(no_perjanjian@),
{
    let mut s = owned("Rincian_Sisa_Piutang_");
    push_text(&mut s, no_perjanjian);
    push_text(&mut s, ".pdf");
    s
}

/// A reply that agrees to the prompt ("y" or "yes" in any case, or nothing at all,
/// white space aside) selects every listed file, in order: positions 0 up to the
/// number of files.
pub proof fn law_agreeing_reply_selects_every_file(reply: Seq<char>, count: nat)
    requires
        lower(trim(reply)) == "y"@ || lower(trim(reply)) == "yes"@ || lower(trim(reply)).len() == 0,
    ensures
        selection_spec(reply, count) == Some(Seq::new(count, |i: int| i as nat)),
        selection_spec(reply, count) matches Some(ps) && ps.len() == count
            && forall|i: int| 0 <= i < count ==> ps[i] == i,
{
    reveal_strlit("y");
    reveal_strlit("yes");
    reveal_strlit("n");
    reveal_strlit("no");
    let c = lower(trim(reply));
    assert(c != "n"@ && c != "no"@) by {
        if c.len() > 0 {
            assert(c[0] == 'y');
        }
    }
    assert(all_positions(count) =~= Seq::new(count, |i: int| i as nat));
    assert(selection_spec(reply, count) == Some(all_positions(count)));
}

} // verus!
