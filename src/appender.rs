//! Builders that collect output text piece by piece.
use vstd::prelude::*;
use vstd::utf8::encode_utf8;
use crate::text::{byte_len, lemma_encode_len_concat};

verus! {

/// Something that text can be appended to.
pub trait Appender {
    /// Everything appended so far.
    spec fn content(&self) -> Seq<char>;

    fn push_str(&mut self, value: &str)
        ensures
            final(self).content() == old(self).content() + value@,
    ;

    fn push_string(&mut self, value: &String)
        ensures
            final(self).content() == old(self).content() + value@,
    ;

    fn push_borrowed_string(&mut self, value: &String)
        ensures
            final(self).content() == old(self).content() + value@,
    ;

    fn push_owned_string(&mut self, value: String)
        ensures
            final(self).content() == old(self).content() + value@,
    ;
}

/// Something whose text can be appended to an appender.
pub trait AppendTo {
    spec fn text(&self) -> Seq<char>;

    fn append_to<A: Appender>(&self, other: &mut A)
        ensures
            final(other).content() == old(other).content() + self.text(),
    ;
}

/// Something that can be turned into the text it holds.
pub trait IntoString {
    spec fn string_view(&self) -> Seq<char>;

    fn into_string(self) -> (r: String)
        ensures
            r@ == self.string_view(),
    ;

    /// The number of bytes of the text in UTF-8 (`usize::MAX` if that does not fit).
    fn len(&self) -> (r: usize)
        ensures
            encode_utf8(self.string_view()).len() <= usize::MAX ==> r == encode_utf8(
                self.string_view(),
            ).len(),
            encode_utf8(self.string_view()).len() > usize::MAX ==> r == usize::MAX,
    ;
}

impl Appender for String {
    open spec fn content(&self) -> Seq<char> {
        self@
    }

    fn push_str(&mut self, value: &str) {
        self.append(value);
    }

    fn push_string(&mut self, value: &String) {
        self.append(value.as_str());
    }

    fn push_borrowed_string(&mut self, value: &String) {
        self.append(value.as_str());
    }

    fn push_owned_string(&mut self, value: String) {
        self.append(value.as_str());
    }
}

impl IntoString for String {
    open spec fn string_view(&self) -> Seq<char> {
        self@
    }

    fn into_string(self) -> (r: String) {
        self
    }

    fn len(&self) -> (r: usize) {
        byte_len(self.as_str())
    }
}

/// The concatenation of a list of strings.
pub open spec fn concat_all(v: Seq<String>) -> Seq<char>
    decreases v.len(),
{
    if v.len() == 0 {
        Seq::empty()
    } else {
        concat_all(v.drop_last()) + v.last()@
    }
}

/// Collects the appended pieces and joins them at the end.
pub struct CollectorAppender {
    content: Vec<String>,
}

impl CollectorAppender {
    pub fn new() -> (r: CollectorAppender)
        ensures
            r.content() == Seq::<char>::empty(),
    {
        CollectorAppender { content: Vec::new() }
    }

    /// What the collector holds, appended to, handed on and turned into a string, is one text.
    pub proof fn lemma_one_text(&self)
        ensures
            self.content() == self.text(),
            self.content() == self.string_view(),
    {
    }

    fn push_piece(&mut self, piece: String)
        ensures
            final(self).content() == old(self).content() + piece@,
    {
        let ghost before = self.content@;
        self.content.push(piece);
        proof {
            assert(self.content@.drop_last() =~= before);
        }
    }
}

impl Appender for CollectorAppender {
    closed spec fn content(&self) -> Seq<char> {
        concat_all(self.content@)
    }

    fn push_str(&mut self, value: &str) {
        self.push_piece(String::from_str(value));
    }

    fn push_string(&mut self, value: &String) {
        self.push_piece(value.clone());
    }

    fn push_borrowed_string(&mut self, value: &String) {
        self.push_piece(value.clone());
    }

    fn push_owned_string(&mut self, value: String) {
        self.push_piece(value);
    }
}

impl AppendTo for CollectorAppender {
    closed spec fn text(&self) -> Seq<char> {
        concat_all(self.content@)
    }

    fn append_to<A: Appender>(&self, other: &mut A) {
        let mut i: usize = 0;
        while i < self.content.len()
            invariant
                i <= self.content@.len(),
                other.content() == old(other).content() + concat_all(self.content@.take(i as int)),
            decreases self.content@.len() - i,
        {
            proof {
                assert(self.content@.take(i + 1).drop_last() =~= self.content@.take(i as int));
            }
            other.push_string(&self.content[i]);
            proof {
                assert(old(other).content() + concat_all(self.content@.take(i + 1)) =~= old(other).content()
                    + concat_all(self.content@.take(i as int)) + self.content@[i as int]@);
            }
            i += 1;
        }
        proof {
            assert(self.content@.take(self.content@.len() as int) =~= self.content@);
        }
    }
}

impl IntoString for CollectorAppender {
    closed spec fn string_view(&self) -> Seq<char> {
        concat_all(self.content@)
    }

    fn into_string(self) -> (r: String) {
        let mut result = String::new();
        let mut i: usize = 0;
        while i < self.content.len()
            invariant
                i <= self.content@.len(),
                result@ == concat_all(self.content@.take(i as int)),
            decreases self.content@.len() - i,
        {
            proof {
                assert(self.content@.take(i + 1).drop_last() =~= self.content@.take(i as int));
            }
            result.append(self.content[i].as_str());
            i += 1;
        }
        proof {
            assert(self.content@.take(self.content@.len() as int) =~= self.content@);
        }
        result
    }

    fn len(&self) -> (r: usize) {
        let mut total: usize = 0;
        let mut i: usize = 0;
        while i < self.content.len()
            invariant
                i <= self.content@.len(),
                encode_utf8(concat_all(self.content@.take(i as int))).len() <= usize::MAX ==> total
                    == encode_utf8(concat_all(self.content@.take(i as int))).len(),
                encode_utf8(concat_all(self.content@.take(i as int))).len() > usize::MAX ==> total
                    == usize::MAX,
            decreases self.content@.len() - i,
        {
            proof {
                assert(self.content@.take(i + 1).drop_last() =~= self.content@.take(i as int));
                lemma_encode_len_concat(
                    concat_all(self.content@.take(i as int)),
                    self.content@[i as int]@,
                );
            }
            let w = byte_len(self.content[i].as_str());
            if total > usize::MAX - w {
                total = usize::MAX;
            } else {
                total = total + w;
            }
            i += 1;
        }
        proof {
            assert(self.content@.take(self.content@.len() as int) =~= self.content@);
        }
        total
    }
}

/// Appends everything to a single string.
pub struct StringAppender {
    result: String,
}

impl StringAppender {
    pub fn new() -> (r: StringAppender)
        ensures
            r.content() == Seq::<char>::empty(),
    {
        StringAppender { result: String::new() }
    }

    /// What the appender holds, appended to, handed on and turned into a string, is one text.
    pub proof fn lemma_one_text(&self)
        ensures
            self.content() == self.text(),
            self.content() == self.string_view(),
    {
    }
}

impl Appender for StringAppender {
    closed spec fn content(&self) -> Seq<char> {
        self.result@
    }

    fn push_str(&mut self, value: &str) {
        self.result.append(value);
    }

    fn push_string(&mut self, value: &String) {
        self.result.append(value.as_str());
    }

    fn push_borrowed_string(&mut self, value: &String) {
        self.result.append(value.as_str());
    }

    fn push_owned_string(&mut self, value: String) {
        self.result.append(value.as_str());
    }
}

impl AppendTo for StringAppender {
    closed spec fn text(&self) -> Seq<char> {
        self.result@
    }

    fn append_to<A: Appender>(&self, other: &mut A) {
        other.push_string(&self.result);
    }
}

impl IntoString for StringAppender {
    closed spec fn string_view(&self) -> Seq<char> {
        self.result@
    }

    fn into_string(self) -> (r: String) {
        self.result
    }

    fn len(&self) -> (r: usize) {
        byte_len(self.result.as_str())
    }
}

} // verus!
