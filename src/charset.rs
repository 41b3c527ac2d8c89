use vstd::prelude::*;

verus! {

#[verifier::external_type_specification]
#[verifier::external_body]
pub struct ExEncoding(encoding_rs::Encoding);

/// Name of the encoding that `encoding_rs::Encoding::for_label` finds for a
/// label, if it knows the label.
pub uninterp spec fn charset_for_label(label: Seq<u8>) -> Option<Seq<char>>;

/// Text that `encoding_rs::Encoding::decode` makes of `bytes` under the
/// encoding of this name (malformed input replaced, a leading byte-order
/// mark honoured).
pub uninterp spec fn decoded_text(charset: Seq<char>, bytes: Seq<u8>) -> Seq<char>;

/// Name of the encoding that chardetng guesses for `bytes`.
pub uninterp spec fn guessed_charset(bytes: Seq<u8>) -> Seq<char>;

/// A character encoding, known by its canonical name.
pub struct Charset {
    enc: &'static encoding_rs::Encoding,
    name: String,
}

impl View for Charset {
    type V = Seq<char>;

    closed spec fn view(&self) -> Seq<char> {
        self.name@
    }
}

impl Charset {
    /// Relies on `encoding_rs::Encoding::for_label` (WHATWG label lookup)
    /// and `Encoding::name`.
    #[verifier::external_body]
    pub(crate) fn for_label(label: &[u8]) -> (r: Option<Charset>)
        ensures
            match r {
                Some(c) => charset_for_label(label@) == Some(c@),
                None => charset_for_label(label@) is None,
            },
    {
        encoding_rs::Encoding::for_label(label).map(|enc| Charset { enc, name: enc.name().to_string() })
    }

    /// Relies on `encoding_rs::UTF_8`, whose name is `UTF-8`.
    #[verifier::external_body]
    pub(crate) fn utf8() -> (r: Charset)
        ensures
            r@ == "UTF-8"@,
    {
        Charset { enc: encoding_rs::UTF_8, name: encoding_rs::UTF_8.name().to_string() }
    }

    /// Relies on `chardetng::EncodingDetector`: fed the whole input at once,
    /// with no top-level-domain hint and UTF-8 allowed as an answer.
    #[verifier::external_body]
    pub(crate) fn guess(bytes: &[u8]) -> (r: Charset)
        ensures
            r@ == guessed_charset(bytes@),
    {
        let mut detector = chardetng::EncodingDetector::new();
        detector.feed(bytes, true);
        let enc = detector.guess(None, true);
        Charset { enc, name: enc.name().to_string() }
    }

    /// Relies on `encoding_rs::Encoding::decode`, which never fails.
    #[verifier::external_body]
    pub(crate) fn decode(&self, bytes: &[u8]) -> (r: String)
        ensures
            r@ == decoded_text(self@, bytes@),
    {
        self.enc.decode(bytes).0.into_owned()
    }

    /// The canonical name of the encoding.
    pub fn name(&self) -> (r: String)
        ensures
            r@ == self@,
    {
        self.name.clone()
    }
}

} // verus!
