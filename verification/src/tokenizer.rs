//! The character-level scanner: it splits raw source text into chunks at
//! fixed separator characters. Separators come through as one-character
//! chunks of their own; any other maximal run of characters is one chunk.
//! A trailing run that no separator closes is not emitted.
use vstd::prelude::*;

verus! {

/// The characters that end a chunk.
pub open spec fn spec_is_token_separator(c: char) -> bool {
    ||| c == ' '
    ||| c == ':'
    ||| c == ';'
    ||| c == '['
    ||| c == ']'
    ||| c == '{'
    ||| c == '}'
    ||| c == '('
    ||| c == ')'
    ||| c == '<'
    ||| c == '>'
    ||| c == ','
}

fn is_token_separator(c: char) -> (r: bool)
    ensures
        r == spec_is_token_separator(c),
{
    match c {
        ' ' | ':' | ';' | '[' | ']' | '{' | '}' | '(' | ')' | '<' | '>' | ',' => true,
        _ => false,
    }
}

/// The chunks still to come when the scan stands at position `i` and the
/// current unflushed run began at `start`.
pub open spec fn chunks_from(s: Seq<char>, i: int, start: int) -> Seq<Seq<char>>
    decreases s.len() - i,
    when 0 <= i
{
    if i >= s.len() {
        Seq::empty()
    } else if spec_is_token_separator(s[i]) {
        let flushed: Seq<Seq<char>> = if start < i {
            seq![s.subrange(start, i)]
        } else {
            Seq::empty()
        };
        flushed + seq![seq![s[i]]] + chunks_from(s, i + 1, i + 1)
    } else {
        chunks_from(s, i + 1, start)
    }
}

/// The chunk sequence of a whole text.
pub open spec fn spec_token_chunks(s: Seq<char>) -> Seq<Seq<char>> {
    chunks_from(s, 0, 0)
}

/// Splits the source text into lexical chunks.
pub fn to_token_chunks(source_string: &str) -> (r: Vec<String>)
    ensures
        r.deep_view() == spec_token_chunks(source_string@),
{
    let ghost s = source_string@;
    let n = source_string.unicode_len();
    let mut char_chunks: Vec<String> = Vec::new();
    let mut start: usize = 0;
    let mut i: usize = 0;
    while i < n
        invariant
            start <= i <= n,
            n == s.len(),
            source_string@ == s,
            char_chunks.deep_view() + chunks_from(s, i as int, start as int)
                == spec_token_chunks(s),
        decreases n - i,
    {
        let c = source_string.get_char(i);
        if is_token_separator(c) {
            let ghost before = char_chunks.deep_view();
            if start < i {
                let chunk = source_string.substring_char(start, i).to_owned();
                assert(chunk@ == s.subrange(start as int, i as int));
                char_chunks.push(chunk);
                assert(char_chunks.deep_view() =~= before.push(s.subrange(
                    start as int,
                    i as int,
                )));
            }
            let ghost mid = char_chunks.deep_view();
            let sep_chunk = source_string.substring_char(i, i + 1).to_owned();
            assert(sep_chunk@ =~= seq![s[i as int]]);
            char_chunks.push(sep_chunk);
            assert(char_chunks.deep_view() =~= mid.push(seq![s[i as int]]));
            proof {
                assert(char_chunks.deep_view() + chunks_from(s, i + 1, i + 1)
                    =~= before + chunks_from(s, i as int, start as int));
            }
            start = i + 1;
        }
        i = i + 1;
    }
    proof {
        assert(chunks_from(s, n as int, start as int) =~= Seq::<Seq<char>>::empty());
        assert(char_chunks.deep_view() + Seq::<Seq<char>>::empty() =~= char_chunks.deep_view());
    }
    char_chunks
}

} // verus!
