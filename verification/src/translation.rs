//! Machine translation of fetched text: how a long text is cut into chunks small enough for the
//! free translation endpoint, how the translated chunks are put back together, and how the
//! endpoint's reply is read.

use vstd::prelude::*;
use crate::text::{
    append, chars_of, concat_chars, join, join_chars, lines, lines_chars, opt_string,
    string_from_chars, utf8_len, utf8_len_capped, views,
};
use crate::wiki_engine::string_views;

verus! {

broadcast use vstd::seq::group_seq_axioms;

/// A chunk grows to at most about this many bytes before the next line starts a new one.
pub const TRANSLATION_CHUNK_BYTES: usize = 1500;

/// The chunks finished so far and the chunk being filled.
pub type ChunkState = (Seq<Seq<char>>, Seq<char>);

/// One more line: when it would take a non-empty chunk past 1500 bytes, that chunk is finished
/// first; the line then joins the current chunk, after a newline unless the chunk is empty.
pub open spec fn chunk_step(st: ChunkState, line: Seq<char>) -> ChunkState {
    let (done, cur) = st;
    let (done1, cur1) = if utf8_len(cur) + utf8_len(line) > TRANSLATION_CHUNK_BYTES && cur.len()
        > 0 {
        (done.push(cur), Seq::<char>::empty())
    } else {
        (done, cur)
    };
    if cur1.len() > 0 {
        (done1, cur1 + seq!['\n'] + line)
    } else {
        (done1, cur1 + line)
    }
}

pub open spec fn chunk_fold(ls: Seq<Seq<char>>) -> ChunkState
    decreases ls.len(),
{
    if ls.len() == 0 {
        (Seq::empty(), Seq::empty())
    } else {
        chunk_step(chunk_fold(ls.drop_last()), ls.last())
    }
}

/// The chunks of a text: its lines gathered as `chunk_step` says, the last chunk kept when it
/// is not empty.
pub open spec fn translation_chunks_of(text: Seq<char>) -> Seq<Seq<char>> {
    let (done, cur) = chunk_fold(lines(text));
    if cur.len() > 0 {
        done.push(cur)
    } else {
        done
    }
}

pub fn translation_chunks(text: &str) -> (r: Vec<String>)
    ensures
        string_views(r@) == translation_chunks_of(text@),
{
    let ls = lines_chars(&chars_of(text));
    let ghost lv = views(ls@);
    let mut done: Vec<String> = Vec::new();
    let mut cur: Vec<char> = Vec::new();
    let n = ls.len();
    let mut i: usize = 0;
    while i < n
        invariant
            n == ls.len(),
            lv == views(ls@),
            i <= n,
            (string_views(done@), cur@) == chunk_fold(lv.take(i as int)),
        decreases n - i,
    {
        proof {
            assert(lv.take(i as int + 1).drop_last() == lv.take(i as int));
            assert(lv.take(i as int + 1).last() == ls@[i as int]@);
        }
        let line = &ls[i];
        let a = utf8_len_capped(&cur, TRANSLATION_CHUNK_BYTES + 1);
        let b = utf8_len_capped(line, TRANSLATION_CHUNK_BYTES + 1);
        if a + b > TRANSLATION_CHUNK_BYTES && cur.len() > 0 {
            let ghost before = string_views(done@);
            done.push(string_from_chars(&cur));
            proof {
                assert(string_views(done@) == before.push(cur@));
            }
            cur = Vec::new();
        }
        if cur.len() > 0 {
            cur.push('\n');
        }
        cur = concat_chars(&cur, line);
        i = i + 1;
    }
    proof {
        assert(lv.take(n as int) == lv);
        assert(lv == lines(text@));
    }
    if cur.len() > 0 {
        let ghost before = string_views(done@);
        done.push(string_from_chars(&cur));
        proof {
            assert(string_views(done@) == before.push(cur@));
        }
    }
    done
}

/// Each chunk's translation, or the chunk itself where its translation failed.
pub open spec fn chunk_or_translation(chunks: Seq<Seq<char>>, results: Seq<Option<Seq<char>>>) -> Seq<
    Seq<char>,
> {
    Seq::new(
        chunks.len(),
        |i: int|
            match results[i] {
                Some(t) => t,
                None => chunks[i],
            },
    )
}

/// The translated text: each chunk's translation (the chunk itself where it failed), joined by
/// newlines.
pub fn assemble_translation(chunks: &Vec<String>, results: &Vec<Option<String>>) -> (r: String)
    requires
        results.len() == chunks.len(),
    ensures
        r@ == join(
            chunk_or_translation(
                string_views(chunks@),
                Seq::new(results.len() as nat, |i: int| opt_string(results@[i])),
            ),
            "\n"@,
        ),
{
    let ghost want = chunk_or_translation(
        string_views(chunks@),
        Seq::new(results.len() as nat, |i: int| opt_string(results@[i])),
    );
    let mut pieces: Vec<Vec<char>> = Vec::new();
    let mut i: usize = 0;
    while i < chunks.len()
        invariant
            i <= chunks.len(),
            results.len() == chunks.len(),
            want == chunk_or_translation(
                string_views(chunks@),
                Seq::new(results.len() as nat, |i: int| opt_string(results@[i])),
            ),
            views(pieces@) == want.take(i as int),
        decreases chunks.len() - i,
    {
        let p = match &results[i] {
            Some(t) => chars_of(t.as_str()),
            None => chars_of(chunks[i].as_str()),
        };
        let ghost before = views(pieces@);
        pieces.push(p);
        proof {
            assert(views(pieces@) == before.push(want[i as int]));
            assert(want.take(i as int + 1) == want.take(i as int).push(want[i as int]));
        }
        i = i + 1;
    }
    proof {
        assert(want.take(chunks.len() as int) == want);
    }
    string_from_chars(&join_chars(&pieces, &chars_of("\n")))
}

/// What serde_json reads of the endpoint's reply: for each entry of the reply's first element
/// (when that is an array), the entry's first element when it is text. `Err` holds serde_json's
/// message when the reply is not JSON.
pub uninterp spec fn json_translation_pieces(reply: Seq<char>) -> Result<
    Option<Seq<Option<Seq<char>>>>,
    Seq<char>,
>;

pub open spec fn pieces_view(r: Result<Option<Vec<Option<String>>>, String>) -> Result<
    Option<Seq<Option<Seq<char>>>>,
    Seq<char>,
> {
    match r {
        Ok(Some(v)) => Ok(Some(Seq::new(v.len() as nat, |i: int| opt_string(v@[i])))),
        Ok(None) => Ok(None),
        Err(e) => Err(e@),
    }
}

/// `serde_json::from_str::<Value>(reply)` and the translated pieces read from it. Trusted: the
/// result is a function of the reply.
#[verifier::external_body]
fn parse_translation_reply(reply: &str) -> (r: Result<Option<Vec<Option<String>>>, String>)
    ensures
        pieces_view(r) == json_translation_pieces(reply@),
{
    let v: serde_json::Value = serde_json::from_str(reply).map_err(|e| e.to_string())?;
    Ok(v.get(0).and_then(|x| x.as_array()).map(|a| a.iter().map(|s| s.get(0).and_then(|t| t.as_str()).map(|t| t.to_string())).collect()))
}

/// The pieces that are present, joined.
pub open spec fn joined_pieces(p: Seq<Option<Seq<char>>>) -> Seq<char>
    decreases p.len(),
{
    if p.len() == 0 {
        Seq::empty()
    } else {
        joined_pieces(p.drop_last()) + match p.last() {
            Some(t) => t,
            None => Seq::empty(),
        }
    }
}

/// The translation in a reply read as `parsed`: its pieces joined; an error when the reply is
/// not JSON or the translation is empty.
pub open spec fn translation_of(parsed: Result<Option<Seq<Option<Seq<char>>>>, Seq<char>>) -> Result<
    Seq<char>,
    Seq<char>,
> {
    match parsed {
        Err(e) => Err("translate parse failed: "@ + e),
        Ok(p) => {
            let text = match p {
                Some(pieces) => joined_pieces(pieces),
                None => Seq::empty(),
            };
            if text.len() == 0 {
                Err("empty translation"@)
            } else {
                Ok(text)
            }
        },
    }
}

pub fn translation_from(parsed: Result<Option<Vec<Option<String>>>, String>) -> (r: Result<
    String,
    String,
>)
    ensures
        match r {
            Ok(t) => translation_of(pieces_view(parsed)) == Ok::<Seq<char>, Seq<char>>(t@),
            Err(e) => translation_of(pieces_view(parsed)) == Err::<Seq<char>, Seq<char>>(e@),
        },
{
    let ghost pv = pieces_view(parsed);
    match parsed {
        Err(e) => Err(string_from_chars(&append(chars_of("translate parse failed: "), e.as_str()))),
        Ok(p) => {
            let mut text: Vec<char> = Vec::new();
            match p {
                Some(pieces) => {
                    let ghost ps = Seq::new(pieces.len() as nat, |i: int| opt_string(pieces@[i]));
                    let mut i: usize = 0;
                    while i < pieces.len()
                        invariant
                            i <= pieces.len(),
                            ps == Seq::new(pieces.len() as nat, |i: int| opt_string(pieces@[i])),
                            text@ == joined_pieces(ps.take(i as int)),
                        decreases pieces.len() - i,
                    {
                        proof {
                            assert(ps.take(i as int + 1).drop_last() == ps.take(i as int));
                        }
                        match &pieces[i] {
                            Some(t) => {
                                text = append(text, t.as_str());
                            },
                            None => {
                                proof {
                                    assert(text@ + Seq::<char>::empty() == text@);
                                }
                            },
                        }
                        i = i + 1;
                    }
                    proof {
                        assert(ps.take(pieces.len() as int) == ps);
                    }
                },
                None => {},
            }
            if text.len() == 0 {
                Err("empty translation".to_owned())
            } else {
                Ok(string_from_chars(&text))
            }
        },
    }
}

/// Reads the translation endpoint's reply.
pub fn read_translation_reply(reply: &str) -> (r: Result<String, String>)
    ensures
        match r {
            Ok(t) => translation_of(json_translation_pieces(reply@)) == Ok::<Seq<char>, Seq<char>>(
                t@,
            ),
            Err(e) => translation_of(json_translation_pieces(reply@)) == Err::<Seq<char>, Seq<char>>(
                e@,
            ),
        },
{
    translation_from(parse_translation_reply(reply))
}

} // verus!
