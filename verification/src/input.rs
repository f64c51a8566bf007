//! Sentence vectorization: tokens, embedding lookup with a fallback for
//! unknown keys, and the assembly of the three parallel numeric sequences
//! that a sentence-labeling engine consumes.
//!
//! Embedding scalars are carried as the raw bit patterns of IEEE-754 single
//! values (`u32`). The crate never interprets them numerically; it only moves
//! them, so the bit pattern is a faithful stand-in for the scalar itself.

use vstd::prelude::*;

use crate::error::{Field, ToponnError};
use crate::numberer::{
    table_contains, table_distinct, table_id_of, table_number, table_number_id, Numberer,
};

verus! {

/// The mathematical content of a token: its surface form, its optional
/// part-of-speech tag, and its optional feature map as a sequence of
/// name/value pairs.
pub ghost struct TokenView {
    pub form: Seq<char>,
    pub pos: Option<Seq<char>>,
    pub features: Option<Seq<(Seq<char>, Option<Seq<char>>)>>,
}

/// A token of a sentence: a surface form, an optional part-of-speech tag,
/// and an optional feature map, stored as an association list from feature
/// names to optional values.
#[derive(Debug, PartialEq)]
pub struct Token {
    pub form: String,
    pub pos: Option<String>,
    pub features: Option<Vec<(String, Option<String>)>>,
}

impl View for Token {
    type V = TokenView;

    open spec fn view(&self) -> TokenView {
        TokenView {
            form: self.form@,
            pos: self.pos.deep_view(),
            features: self.features.deep_view(),
        }
    }
}

impl DeepView for Token {
    type V = TokenView;

    open spec fn deep_view(&self) -> TokenView {
        self.view()
    }
}

/// The value stored under `name` in an association list of features: `None`
/// if no pair carries `name`, otherwise the first such pair's value.
pub open spec fn assoc_get(
    pairs: Seq<(Seq<char>, Option<Seq<char>>)>,
    name: Seq<char>,
) -> Option<Option<Seq<char>>>
    decreases pairs.len(),
{
    if pairs.len() == 0 {
        None
    } else if pairs[0].0 == name {
        Some(pairs[0].1)
    } else {
        assoc_get(pairs.drop_first(), name)
    }
}

/// The value of the feature called `name`: `None` when the token has no
/// feature map or the map has no such feature, otherwise the (possibly
/// valueless) entry.
pub open spec fn token_feature(t: TokenView, name: Seq<char>) -> Option<Option<Seq<char>>> {
    match t.features {
        None => None,
        Some(pairs) => assoc_get(pairs, name),
    }
}

/// The token's topological-field label, if the token carries one: the value
/// of the feature called `tf`.
pub open spec fn token_tf_value(t: TokenView) -> Option<Seq<char>> {
    match token_feature(t, "tf"@) {
        Some(Some(v)) => Some(v),
        _ => None,
    }
}

/// The first per-token field that vectorization finds missing: the
/// part-of-speech tag is checked before the topological-field feature.
pub open spec fn token_missing_field(t: TokenView) -> Option<Field> {
    if t.pos is None {
        Some(Field::Pos)
    } else if token_tf_value(t) is None {
        Some(Field::TopologicalField)
    } else {
        None
    }
}

/// Can the token be vectorized?
pub open spec fn token_ok(t: TokenView) -> bool {
    token_missing_field(t) is None
}

/// The token's topological-field label; meaningful only when `token_ok`
/// holds.
pub open spec fn token_tf(t: TokenView) -> Seq<char> {
    token_tf_value(t)->Some_0
}

impl Token {
    /// A token from its parts.
    pub fn new(
        form: String,
        pos: Option<String>,
        features: Option<Vec<(String, Option<String>)>>,
    ) -> (r: Token)
        ensures
            r == (Token { form, pos, features }),
    {
        Token { form, pos, features }
    }

    /// Look the feature called `name` up in the token's feature map.
    pub fn feature(&self, name: &String) -> (r: Option<&Option<String>>)
        ensures
            match r {
                Some(v) => token_feature(self@, name@) == Some(v.deep_view()),
                None => token_feature(self@, name@) is None,
            },
    {
        match &self.features {
            None => None,
            Some(pairs) => {
                let n = pairs.len();
                proof {
                    assert(pairs.deep_view().skip(0) =~= pairs.deep_view());
                }
                for i in 0..n
                    invariant
                        n == pairs@.len(),
                        self.features matches Some(f) && f == *pairs,
                        assoc_get(pairs.deep_view(), name@) == assoc_get(
                            pairs.deep_view().skip(i as int),
                            name@,
                        ),
                {
                    proof {
                        assert(pairs.deep_view()[i as int] == pairs@[i as int].deep_view());
                        assert(pairs.deep_view().skip(i as int)[0] == pairs.deep_view()[i as int]);
                        assert(pairs.deep_view().skip(i as int).drop_first() =~= pairs.deep_view().skip(
                            i + 1,
                        ));
                    }
                    if pairs[i].0 == *name {
                        return Some(&pairs[i].1);
                    }
                }
                proof {
                    assert(pairs.deep_view().skip(n as int).len() == 0);
                }
                None
            },
        }
    }
}

impl Clone for Token {
    /// A deep copy with the same view.
    fn clone(&self) -> (res: Token)
        ensures
            res@ == self@,
    {
        let pos = match &self.pos {
            Some(p) => Some(p.clone()),
            None => None,
        };
        let features = match &self.features {
            Some(pairs) => {
                let n = pairs.len();
                let mut out: Vec<(String, Option<String>)> = Vec::new();
                for i in 0..n
                    invariant
                        n == pairs@.len(),
                        out@.len() == i,
                        forall|j: int| 0 <= j < i ==> out.deep_view()[j] == pairs.deep_view()[j],
                {
                    let v = match &pairs[i].1 {
                        Some(s) => Some(s.clone()),
                        None => None,
                    };
                    out.push((pairs[i].0.clone(), v));
                    proof {
                        assert(out.deep_view()[i as int] == pairs.deep_view()[i as int]);
                    }
                }
                proof {
                    assert(out.deep_view() =~= pairs.deep_view());
                }
                Some(out)
            },
            None => None,
        };
        let res = Token { form: self.form.clone(), pos, features };
        proof {
            assert(res.pos.deep_view() == self.pos.deep_view());
            assert(res.features.deep_view() == self.features.deep_view());
        }
        res
    }
}

/// Sentence represented as a vector.
///
/// Three parallel sequences indexed by token position: the flattened token
/// embeddings, the flattened part-of-speech embeddings, and the
/// topological-field label identifiers. Such a payload is typically the
/// input to a sequence-labeling graph.
#[derive(Debug)]
pub struct SentVec {
    pub tokens: Vec<u32>,
    pub tags: Vec<u32>,
    pub tfs: Vec<i32>,
}

impl SentVec {
    /// Construct an empty sentence vector.
    pub fn new() -> (r: SentVec)
        ensures
            r.tokens@ =~= Seq::<u32>::empty(),
            r.tags@ =~= Seq::<u32>::empty(),
            r.tfs@ =~= Seq::<i32>::empty(),
    {
        SentVec { tokens: Vec::new(), tags: Vec::new(), tfs: Vec::new() }
    }

    /// Construct an empty sentence vector with room for `capacity` tokens.
    pub fn with_capacity(capacity: usize) -> (r: SentVec)
        ensures
            r.tokens@ =~= Seq::<u32>::empty(),
            r.tags@ =~= Seq::<u32>::empty(),
            r.tfs@ =~= Seq::<i32>::empty(),
    {
        SentVec {
            tokens: Vec::with_capacity(capacity),
            tags: Vec::with_capacity(capacity),
            tfs: Vec::with_capacity(capacity),
        }
    }

    /// Decompose the sentence vector into its three sequences.
    pub fn into_parts(self) -> (r: (Vec<u32>, Vec<u32>, Vec<i32>))
        ensures
            r.0 == self.tokens,
            r.1 == self.tags,
            r.2 == self.tfs,
    {
        (self.tokens, self.tags, self.tfs)
    }
}

/// An embedding store: a fixed dimensionality, a set of known keys with
/// their vectors, and one precomputed fallback vector returned for every
/// unknown key.
///
/// The fallback is supplied at construction; by the data model it is the
/// L2-normalized sum of all known vectors, or the zero vector when that sum
/// has zero norm. Computing it is floating-point work and happens outside
/// this crate; here it is one more vector of the right width.
pub struct Embeddings {
    pub dims: usize,
    pub keys: Vec<String>,
    pub vectors: Vec<Vec<u32>>,
    pub unknown: Vec<u32>,
}

/// The vector an embedding store answers for `word`: the stored vector when
/// `word` is a known key, the fallback otherwise.
pub open spec fn spec_embedding(e: Embeddings, w: Seq<char>) -> Seq<u32> {
    if table_contains(e.keys.deep_view(), w) {
        e.vectors.deep_view()[table_id_of(e.keys.deep_view(), w)]
    } else {
        e.unknown@
    }
}

impl Embeddings {
    /// Well-formedness: keys and vectors run in parallel, every vector —
    /// the fallback included — is exactly `dims` wide, the width is
    /// positive, and no key occurs twice.
    pub open spec fn wf(&self) -> bool {
        &&& self.keys@.len() == self.vectors@.len()
        &&& forall|i: int| 0 <= i < self.vectors@.len() ==> self.vectors.deep_view()[i].len()
            == self.dims
        &&& self.unknown@.len() == self.dims
        &&& self.dims > 0
        &&& table_distinct(self.keys.deep_view())
    }

    /// An embedding store from its parts. The caller supplies the
    /// precomputed fallback vector as `unknown`.
    pub fn new(
        dims: usize,
        keys: Vec<String>,
        vectors: Vec<Vec<u32>>,
        unknown: Vec<u32>,
    ) -> (r: Embeddings)
        requires
            keys@.len() == vectors@.len(),
            forall|i: int| 0 <= i < vectors@.len() ==> vectors.deep_view()[i].len() == dims,
            unknown@.len() == dims,
            dims > 0,
            table_distinct(keys.deep_view()),
        ensures
            r == (Embeddings { dims, keys, vectors, unknown }),
            r.wf(),
    {
        Embeddings { dims, keys, vectors, unknown }
    }

    /// The dimensionality of every vector the store answers.
    pub fn dims(&self) -> (r: usize)
        ensures
            r == self.dims,
    {
        self.dims
    }

    /// The vector for `word`: the stored one for a known key, the fallback
    /// for an unknown one. Never fails; absence is a normal case. The
    /// result is always exactly `dims()` wide.
    pub fn embedding(&self, word: &String) -> (r: Vec<u32>)
        requires
            self.wf(),
        ensures
            r@ == spec_embedding(*self, word@),
            r@.len() == self.dims,
    {
        let n = self.keys.len();
        for i in 0..n
            invariant
                self.wf(),
                n == self.keys@.len(),
                forall|p: int| 0 <= p < i ==> self.keys.deep_view()[p] != word@,
        {
            if self.keys[i] == *word {
                proof {
                    assert(self.keys.deep_view()[i as int] == word@);
                    assert(forall|k: int|
                        0 <= k < self.keys.deep_view().len() && self.keys.deep_view()[k] == word@
                            ==> k == i as int);
                    assert(table_id_of(self.keys.deep_view(), word@) == i as int);
                }
                let r = self.vectors[i].clone();
                proof {
                    assert(r@ =~= self.vectors.deep_view()[i as int]);
                }
                return r;
            }
        }
        let r = self.unknown.clone();
        proof {
            assert(r@ =~= self.unknown@);
        }
        r
    }
}

/// Embeddings for the input annotation layers: one store for token forms
/// and one for part-of-speech tags. Immutable after construction.
pub struct LayerEmbeddings {
    pub token_embeddings: Embeddings,
    pub tag_embeddings: Embeddings,
}

impl LayerEmbeddings {
    /// Construct `LayerEmbeddings` from the given stores.
    pub fn new(token_embeddings: Embeddings, tag_embeddings: Embeddings) -> (r: LayerEmbeddings)
        ensures
            r == (LayerEmbeddings { token_embeddings, tag_embeddings }),
    {
        LayerEmbeddings { token_embeddings, tag_embeddings }
    }

    /// Get the tag embedding store.
    pub fn tag_embeddings(&self) -> (r: &Embeddings)
        ensures
            r == self.tag_embeddings,
    {
        &self.tag_embeddings
    }

    /// Get the token embedding store.
    pub fn token_embeddings(&self) -> (r: &Embeddings)
        ensures
            r == self.token_embeddings,
    {
        &self.token_embeddings
    }
}

/// The surface forms of a sentence, token by token.
pub open spec fn sentence_forms(s: Seq<TokenView>) -> Seq<Seq<char>> {
    s.map_values(|t: TokenView| t.form)
}

/// The part-of-speech tags of a sentence, token by token; meaningful only
/// when every token has one.
pub open spec fn sentence_poses(s: Seq<TokenView>) -> Seq<Seq<char>> {
    s.map_values(|t: TokenView| t.pos->Some_0)
}

/// The topological-field labels of a sentence, token by token; meaningful
/// only when every token carries one.
pub open spec fn sentence_tfs(s: Seq<TokenView>) -> Seq<Seq<char>> {
    s.map_values(|t: TokenView| token_tf(t))
}

/// The table after numbering every label of `labels` in order.
pub open spec fn number_all(tbl: Seq<Seq<char>>, labels: Seq<Seq<char>>) -> Seq<Seq<char>>
    decreases labels.len(),
{
    if labels.len() == 0 {
        tbl
    } else {
        table_number(number_all(tbl, labels.drop_last()), labels.last())
    }
}

/// The row-major concatenation of the store's answers for `words`: the
/// vector of `words[0]`, then of `words[1]`, and so on.
pub open spec fn flat_embeddings(e: Embeddings, words: Seq<Seq<char>>) -> Seq<u32>
    decreases words.len(),
{
    if words.len() == 0 {
        Seq::empty()
    } else {
        flat_embeddings(e, words.drop_last()) + spec_embedding(e, words.last())
    }
}

/// Is `i` the position of the first token that cannot be vectorized?
pub open spec fn is_first_bad(s: Seq<TokenView>, i: int) -> bool {
    &&& 0 <= i < s.len()
    &&& !token_ok(s[i])
    &&& forall|j: int| 0 <= j < i ==> token_ok(s[j])
}

/// Vectorizer for sentences.
///
/// A `SentVectorizer` turns each token of a sentence into its form and tag
/// embeddings and numbers its topological-field label through the table,
/// growing the table when a label is new.
pub struct SentVectorizer {
    pub layer_embeddings: LayerEmbeddings,
    pub numberer: Numberer,
}

impl SentVectorizer {
    /// Well-formedness of the two embedding stores and of the table.
    pub open spec fn wf(&self) -> bool {
        &&& self.layer_embeddings.token_embeddings.wf()
        &&& self.layer_embeddings.tag_embeddings.wf()
        &&& self.numberer.wf()
    }

    /// Construct an input vectorizer from the embedding stores and the
    /// topological-field table.
    pub fn new(layer_embeddings: LayerEmbeddings, numberer: Numberer) -> (r: SentVectorizer)
        ensures
            r == (SentVectorizer { layer_embeddings, numberer }),
    {
        SentVectorizer { layer_embeddings, numberer }
    }

    /// Get the layer embeddings.
    pub fn layer_embeddings(&self) -> (r: &LayerEmbeddings)
        ensures
            r == self.layer_embeddings,
    {
        &self.layer_embeddings
    }

    /// Get the topological field numberer.
    pub fn numberer(&self) -> (r: &Numberer)
        ensures
            r == self.numberer,
    {
        &self.numberer
    }

    /// Vectorize a sentence.
    ///
    /// Succeeds exactly when every token has a part-of-speech tag and a
    /// valued `tf` feature; the first token missing one is reported in a
    /// `MissingField` error, the tag checked first. On success the three
    /// sequences describe the tokens in order: the embedding sequences are
    /// the row-major concatenations of the per-token vectors — an unknown
    /// form or tag silently falls back to the store's fallback vector,
    /// never an error — and the label sequence holds each token's `tf`
    /// identifier, numbering labels left to right.
    pub fn realize(&mut self, sentence: &Vec<Token>) -> (r: Result<SentVec, ToponnError>)
        requires
            old(self).wf(),
            old(self).numberer@.len() + sentence@.len() <= i32::MAX,
        ensures
            final(self).wf(),
            final(self).layer_embeddings == old(self).layer_embeddings,
            (r is Ok) <==> (forall|i: int|
                0 <= i < sentence.deep_view().len() ==> token_ok(sentence.deep_view()[i])),
            r matches Ok(sv) ==> ({
                let s = sentence.deep_view();
                let tbl = old(self).numberer@;
                &&& sv.tokens@ == flat_embeddings(
                    old(self).layer_embeddings.token_embeddings,
                    sentence_forms(s),
                )
                &&& sv.tags@ == flat_embeddings(
                    old(self).layer_embeddings.tag_embeddings,
                    sentence_poses(s),
                )
                &&& sv.tfs@.len() == s.len()
                &&& forall|i: int|
                    0 <= i < s.len() ==> sv.tfs@[i] as int == table_number_id(
                        number_all(tbl, sentence_tfs(s).take(i)),
                        token_tf(s[i]),
                    )
                &&& forall|i: int|
                    0 <= i < s.len() ==> 0 <= sv.tfs@[i] && (sv.tfs@[i] as int)
                        < final(self).numberer@.len()
                        && final(self).numberer@[sv.tfs@[i] as int] == token_tf(s[i])
                &&& final(self).numberer@ == number_all(tbl, sentence_tfs(s))
            }),
            forall|i: int|
                is_first_bad(sentence.deep_view(), i) ==> ({
                    let s = sentence.deep_view();
                    &&& r matches Err(e) && e matches ToponnError::MissingField { token, field }
                        && token@ == s[i] && Some(field) == token_missing_field(s[i])
                    &&& final(self).numberer@ == number_all(
                        old(self).numberer@,
                        sentence_tfs(s).take(i),
                    )
                }),
    {
        let ghost s = sentence.deep_view();
        let ghost tbl = old(self).numberer@;
        let n = sentence.len();
        let mut input = SentVec::with_capacity(n);
        let tf_key: String = "tf".to_owned();
        proof {
            assert(sentence_tfs(s).take(0) =~= Seq::<Seq<char>>::empty());
            assert(sentence_forms(s).take(0) =~= Seq::<Seq<char>>::empty());
            assert(sentence_poses(s).take(0) =~= Seq::<Seq<char>>::empty());
        }
        for i in 0..n
            invariant
                self.wf(),
                self.layer_embeddings == old(self).layer_embeddings,
                s == sentence.deep_view(),
                tbl == old(self).numberer@,
                n == sentence@.len(),
                s.len() == n,
                tbl.len() + n <= i32::MAX,
                tf_key@ == "tf"@,
                forall|j: int| 0 <= j < i ==> token_ok(s[j]),
                self.numberer@ == number_all(tbl, sentence_tfs(s).take(i as int)),
                self.numberer@.len() <= tbl.len() + i,
                input.tokens@ == flat_embeddings(
                    self.layer_embeddings.token_embeddings,
                    sentence_forms(s).take(i as int),
                ),
                input.tags@ == flat_embeddings(
                    self.layer_embeddings.tag_embeddings,
                    sentence_poses(s).take(i as int),
                ),
                input.tfs@.len() == i,
                forall|j: int|
                    0 <= j < i ==> input.tfs@[j] as int == table_number_id(
                        number_all(tbl, sentence_tfs(s).take(j)),
                        token_tf(s[j]),
                    ),
                forall|j: int|
                    0 <= j < i ==> 0 <= input.tfs@[j] && (input.tfs@[j] as int)
                        < self.numberer@.len() && self.numberer@[input.tfs@[j] as int]
                        == token_tf(s[j]),
        {
            let token = &sentence[i];
            proof {
                assert(s[i as int] == sentence@[i as int].deep_view());
            }
            let pos = match &token.pos {
                Some(p) => p,
                None => {
                    proof {
                        assert(!token_ok(s[i as int]));
                        assert(token_missing_field(s[i as int]) == Some(Field::Pos));
                        assert forall|k: int| is_first_bad(s, k) implies k == i as int by {
                            if k < i as int {
                                assert(token_ok(s[k]));
                            } else if k > i as int {
                                assert(token_ok(s[i as int]));
                            }
                        }
                    }
                    return Err(ToponnError::MissingField { token: token.clone(), field: Field::Pos });
                },
            };
            let tf = match token.feature(&tf_key) {
                Some(Some(v)) => v,
                _ => {
                    proof {
                        assert(token_tf_value(s[i as int]) is None);
                        assert(!token_ok(s[i as int]));
                        assert(token_missing_field(s[i as int]) == Some(Field::TopologicalField));
                        assert forall|k: int| is_first_bad(s, k) implies k == i as int by {
                            if k < i as int {
                                assert(token_ok(s[k]));
                            } else if k > i as int {
                                assert(token_ok(s[i as int]));
                            }
                        }
                    }
                    return Err(ToponnError::MissingField {
                        token: token.clone(),
                        field: Field::TopologicalField,
                    });
                },
            };
            proof {
                assert(token_ok(s[i as int]));
                assert(token_tf(s[i as int]) == tf@);
            }

            let mut form_emb = self.layer_embeddings.token_embeddings.embedding(&token.form);
            proof {
                let forms = sentence_forms(s);
                assert(forms.take(i + 1).drop_last() =~= forms.take(i as int));
                assert(forms.take(i + 1).last() == s[i as int].form);
                assert(s[i as int].form == token.form@);
            }
            input.tokens.append(&mut form_emb);

            let mut tag_emb = self.layer_embeddings.tag_embeddings.embedding(pos);
            proof {
                let poses = sentence_poses(s);
                assert(poses.take(i + 1).drop_last() =~= poses.take(i as int));
                assert(poses.take(i + 1).last() == s[i as int].pos->Some_0);
                assert(s[i as int].pos->Some_0 == pos@);
            }
            input.tags.append(&mut tag_emb);

            proof {
                let tfs = sentence_tfs(s);
                assert(tfs.take(i + 1).drop_last() =~= tfs.take(i as int));
                assert(tfs.take(i + 1).last() == token_tf(s[i as int]));
            }
            let id = self.numberer.number(tf);
            proof {
                assert(id < self.numberer@.len());
                assert(self.numberer@.len() <= tbl.len() + i + 1);
                assert(id <= i32::MAX);
            }
            input.tfs.push(id as i32);
        }
        proof {
            assert(sentence_tfs(s).take(n as int) =~= sentence_tfs(s));
            assert(sentence_forms(s).take(n as int) =~= sentence_forms(s));
            assert(sentence_poses(s).take(n as int) =~= sentence_poses(s));
        }
        Ok(input)
    }
}

} // verus!
