//! What generation and embedding commands produce: text chunks, and the
//! folding of a finished stream of chunks into its text and tokens.
use vstd::prelude::*;
use vstd::string::StringExecFns;

verus! {

/// One piece of generated text.
#[derive(Debug, Clone)]
pub struct GenChunk {
    pub text: String,
    pub hidden: bool,
    pub tokens: Option<Vec<u32>>,
}

/// The embeddings of a whole batch of inputs, in input order.
///
/// Each embedding holds the bit patterns of its `f32` components.
#[derive(Debug, Clone)]
pub struct EmbeddingResult {
    pub embeddings: Vec<Vec<u32>>,
    pub input_tokens: Vec<u32>,
    pub prompt_tokens: u32,
}

/// The text of the chunks that are not hidden, in order.
pub open spec fn visible_text(chunks: Seq<GenChunk>) -> Seq<char>
    decreases chunks.len(),
{
    if chunks.len() == 0 {
        Seq::empty()
    } else {
        let last = chunks.last();
        visible_text(chunks.drop_last()) + (if last.hidden {
            Seq::empty()
        } else {
            last.text@
        })
    }
}

/// The tokens of the chunks that are not hidden, in order.
pub open spec fn visible_tokens(chunks: Seq<GenChunk>) -> Seq<u32>
    decreases chunks.len(),
{
    if chunks.len() == 0 {
        Seq::empty()
    } else {
        let last = chunks.last();
        visible_tokens(chunks.drop_last()) + (if last.hidden {
            Seq::empty()
        } else {
            match last.tokens {
                Some(t) => t@,
                None => Seq::empty(),
            }
        })
    }
}

/// The text a finished generation produced: the visible chunks' text, joined.
pub fn collect_text(chunks: &Vec<GenChunk>) -> (r: String)
    ensures
        r@ == visible_text(chunks@),
{
    let mut result = String::new();
    let n = chunks.len();
    let mut i: usize = 0;
    while i < n
        invariant
            n == chunks@.len(),
            i <= n,
            result@ == visible_text(chunks@.take(i as int)),
        decreases n - i,
    {
        assert(chunks@.take(i + 1).drop_last() =~= chunks@.take(i as int));
        if !chunks[i].hidden {
            result.append(chunks[i].text.as_str());
        } else {
            assert(result@ + Seq::<char>::empty() =~= result@);
        }
        i = i + 1;
    }
    assert(chunks@.take(n as int) =~= chunks@);
    result
}

/// The text and the tokens a finished generation produced, both from the
/// visible chunks only.
pub fn collect_text_and_tokens(chunks: &Vec<GenChunk>) -> (r: (String, Vec<u32>))
    ensures
        r.0@ == visible_text(chunks@),
        r.1@ == visible_tokens(chunks@),
{
    let mut text = String::new();
    let mut tokens: Vec<u32> = Vec::new();
    let n = chunks.len();
    let mut i: usize = 0;
    while i < n
        invariant
            n == chunks@.len(),
            i <= n,
            text@ == visible_text(chunks@.take(i as int)),
            tokens@ == visible_tokens(chunks@.take(i as int)),
        decreases n - i,
    {
        assert(chunks@.take(i + 1).drop_last() =~= chunks@.take(i as int));
        let chunk = &chunks[i];
        if !chunk.hidden {
            text.append(chunk.text.as_str());
            match &chunk.tokens {
                Some(t) => {
                    let m = t.len();
                    let mut j: usize = 0;
                    let ghost before = tokens@;
                    while j < m
                        invariant
                            m == t@.len(),
                            j <= m,
                            tokens@ == before + t@.take(j as int),
                        decreases m - j,
                    {
                        tokens.push(t[j]);
                        assert(t@.take(j + 1) =~= t@.take(j as int).push(t@[j as int]));
                        j = j + 1;
                    }
                    assert(t@.take(m as int) =~= t@);
                },
                None => {
                    assert(tokens@ + Seq::<u32>::empty() =~= tokens@);
                },
            }
        } else {
            assert(text@ + Seq::<char>::empty() =~= text@);
            assert(tokens@ + Seq::<u32>::empty() =~= tokens@);
        }
        i = i + 1;
    }
    assert(chunks@.take(n as int) =~= chunks@);
    (text, tokens)
}


/// The tokens a chunk carries, when it carries any.
pub open spec fn chunk_tokens(g: GenChunk) -> Seq<u32> {
    match g.tokens {
        Some(t) => t@,
        None => Seq::empty(),
    }
}

/// A chunk at the end adds its text and tokens when it is visible, and
/// nothing when it is hidden.
pub proof fn law_last_chunk(c: Seq<GenChunk>, g: GenChunk)
    ensures
        g.hidden ==> visible_text(c.push(g)) == visible_text(c) && visible_tokens(c.push(g))
            == visible_tokens(c),
        !g.hidden ==> visible_text(c.push(g)) == visible_text(c) + g.text@ && visible_tokens(
            c.push(g),
        ) == visible_tokens(c) + chunk_tokens(g),
{
    assert(c.push(g).drop_last() =~= c);
    assert(visible_text(c) + Seq::<char>::empty() =~= visible_text(c));
    assert(visible_tokens(c) + Seq::<u32>::empty() =~= visible_tokens(c));
}

/// What two runs of chunks produce together is what the first produces
/// followed by what the second produces.
pub proof fn law_chunks_concatenate(a: Seq<GenChunk>, b: Seq<GenChunk>)
    ensures
        visible_text(a + b) == visible_text(a) + visible_text(b),
        visible_tokens(a + b) == visible_tokens(a) + visible_tokens(b),
    decreases b.len(),
{
    if b.len() == 0 {
        assert(a + b =~= a);
        assert(visible_text(a) + visible_text(b) =~= visible_text(a));
        assert(visible_tokens(a) + visible_tokens(b) =~= visible_tokens(a));
    } else {
        let b1 = b.drop_last();
        law_chunks_concatenate(a, b1);
        assert((a + b).drop_last() =~= a + b1);
        assert((a + b).last() == b.last());
        assert(visible_text(a) + visible_text(b1) + (if b.last().hidden {
            Seq::<char>::empty()
        } else {
            b.last().text@
        }) =~= visible_text(a) + (visible_text(b1) + (if b.last().hidden {
            Seq::<char>::empty()
        } else {
            b.last().text@
        })));
        let tl = if b.last().hidden {
            Seq::<u32>::empty()
        } else {
            chunk_tokens(b.last())
        };
        assert(visible_tokens(a) + visible_tokens(b1) + tl =~= visible_tokens(a) + (visible_tokens(b1) + tl));
    }
}

/// A hidden chunk adds nothing to what a generation produced, wherever it
/// stands among the chunks.
pub proof fn law_hidden_chunk_adds_nothing(a: Seq<GenChunk>, h: GenChunk, b: Seq<GenChunk>)
    requires
        h.hidden,
    ensures
        visible_text(a.push(h) + b) == visible_text(a + b),
        visible_tokens(a.push(h) + b) == visible_tokens(a + b),
{
    law_chunks_concatenate(a.push(h), b);
    law_chunks_concatenate(a, b);
    law_last_chunk(a, h);
}

} // verus!
