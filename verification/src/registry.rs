//! Transfer syntaxes and the registry that finds them by their identifiers.

use crate::endian::Endianness;
use vstd::prelude::*;

verus! {

/// What a transfer syntax asks for beyond its byte order and the form of its
/// headers. The adapters themselves are kept by the program that registers
/// them; the descriptor only says which of them there are.
#[derive(Clone, Copy, Debug, PartialEq, Eq, Structural)]
pub enum Codec {
    /// No codec is needed: data sets are read as they are and pixel data is
    /// native.
    Native,
    /// Pixel data is encapsulated and no adapter decodes it. Data sets can
    /// still be read.
    EncapsulatedPixelData,
    /// The whole data set goes through an adapter, which is there.
    Dataset,
    /// Pixel data is encapsulated and an adapter is there for it.
    PixelAdapter {
        /// Whether the adapter decodes frames.
        decode: bool,
        /// Whether the adapter encodes frames.
        encode: bool,
    },
    /// The whole data set goes through an adapter, which is missing.
    Unsupported,
}

/// The decoder of element headers that a transfer syntax is read with.
#[derive(Clone, Copy, Debug, PartialEq, Eq, Structural)]
pub enum HeaderCodec {
    /// Implicit VR Little Endian.
    ImplicitVRLittleEndian,
    /// Explicit VR Little Endian.
    ExplicitVRLittleEndian,
    /// Explicit VR Big Endian.
    ExplicitVRBigEndian,
}

/// A transfer syntax: its unique identifier, its name, the byte order and
/// the form of its headers, and what codec it asks for.
#[derive(Clone, Debug)]
pub struct TransferSyntax {
    uid: String,
    name: String,
    byte_order: Endianness,
    explicit_vr: bool,
    codec: Codec,
}

/// The mathematical value of a [`TransferSyntax`].
pub ghost struct TransferSyntaxModel {
    /// The unique identifier.
    pub uid: Seq<char>,
    /// The name.
    pub name: Seq<char>,
    /// The byte order of the numbers.
    pub byte_order: Endianness,
    /// Whether headers name their value representations.
    pub explicit_vr: bool,
    /// The codec.
    pub codec: Codec,
}

impl TransferSyntaxModel {
    /// Whether data sets and pixel data of the syntax can both be worked
    /// with.
    pub open spec fn fully_supported(self) -> bool {
        self.codec == Codec::Native || self.codec == Codec::Dataset || self.codec
            == (Codec::PixelAdapter { decode: true, encode: true })
    }

    /// Whether not even data sets of the syntax can be read.
    pub open spec fn unsupported(self) -> bool {
        self.codec == Codec::Unsupported
    }

    /// Whether pixel data of the syntax is encapsulated with no adapter to
    /// decode it.
    pub open spec fn unsupported_pixel_encapsulation(self) -> bool {
        self.codec == Codec::EncapsulatedPixelData || self.codec == Codec::Unsupported
    }

    /// The decoder of element headers for the syntax, where there is one.
    pub open spec fn decoder(self) -> Option<HeaderCodec> {
        if self.codec == Codec::Unsupported {
            None
        } else if self.explicit_vr {
            match self.byte_order {
                Endianness::Little => Some(HeaderCodec::ExplicitVRLittleEndian),
                Endianness::Big => Some(HeaderCodec::ExplicitVRBigEndian),
            }
        } else {
            match self.byte_order {
                Endianness::Little => Some(HeaderCodec::ImplicitVRLittleEndian),
                Endianness::Big => None,
            }
        }
    }
}

impl View for TransferSyntax {
    type V = TransferSyntaxModel;

    closed spec fn view(&self) -> TransferSyntaxModel {
        TransferSyntaxModel {
            uid: self.uid@,
            name: self.name@,
            byte_order: self.byte_order,
            explicit_vr: self.explicit_vr,
            codec: self.codec,
        }
    }
}

impl TransferSyntax {
    /// A transfer syntax of the given parts.
    pub fn new(uid: &str, name: &str, byte_order: Endianness, explicit_vr: bool, codec: Codec) -> (ts:
        TransferSyntax)
        ensures
            ts@ == (TransferSyntaxModel { uid: uid@, name: name@, byte_order, explicit_vr, codec }),
    {
        TransferSyntax {
            uid: uid.to_owned(),
            name: name.to_owned(),
            byte_order,
            explicit_vr,
            codec,
        }
    }

    /// A transfer syntax in Explicit VR Little Endian.
    pub fn new_ele(uid: &str, name: &str, codec: Codec) -> (ts: TransferSyntax)
        ensures
            ts@ == (TransferSyntaxModel {
                uid: uid@,
                name: name@,
                byte_order: Endianness::Little,
                explicit_vr: true,
                codec,
            }),
    {
        TransferSyntax::new(uid, name, Endianness::Little, true, codec)
    }

    /// The unique identifier.
    pub fn uid(&self) -> (s: &str)
        ensures
            s@ == self@.uid,
    {
        self.uid.as_str()
    }

    /// The name.
    pub fn name(&self) -> (s: &str)
        ensures
            s@ == self@.name,
    {
        self.name.as_str()
    }

    /// The byte order of the numbers.
    pub fn endianness(&self) -> (e: Endianness)
        ensures
            e == self@.byte_order,
    {
        self.byte_order
    }

    /// Whether headers name their value representations.
    pub fn explicit_vr(&self) -> (b: bool)
        ensures
            b == self@.explicit_vr,
    {
        self.explicit_vr
    }

    /// The codec.
    pub fn codec(&self) -> (c: Codec)
        ensures
            c == self@.codec,
    {
        self.codec
    }

    /// Whether data sets and pixel data of the syntax can both be worked
    /// with.
    pub fn fully_supported(&self) -> (b: bool)
        ensures
            b == self@.fully_supported(),
    {
        match self.codec {
            Codec::Native => true,
            Codec::Dataset => true,
            Codec::PixelAdapter { decode, encode } => decode && encode,
            _ => false,
        }
    }

    /// Whether not even data sets of the syntax can be read.
    pub fn unsupported(&self) -> (b: bool)
        ensures
            b == self@.unsupported(),
    {
        match self.codec {
            Codec::Unsupported => true,
            _ => false,
        }
    }

    /// Whether pixel data of the syntax is encapsulated with no adapter to
    /// decode it.
    pub fn unsupported_pixel_encapsulation(&self) -> (b: bool)
        ensures
            b == self@.unsupported_pixel_encapsulation(),
    {
        match self.codec {
            Codec::EncapsulatedPixelData => true,
            Codec::Unsupported => true,
            _ => false,
        }
    }

    /// The decoder of element headers for the syntax, where there is one.
    pub fn decoder(&self) -> (d: Option<HeaderCodec>)
        ensures
            d == self@.decoder(),
    {
        match self.codec {
            Codec::Unsupported => None,
            _ => {
                match (self.byte_order, self.explicit_vr) {
                    (Endianness::Little, true) => Some(HeaderCodec::ExplicitVRLittleEndian),
                    (Endianness::Big, true) => Some(HeaderCodec::ExplicitVRBigEndian),
                    (Endianness::Little, false) => Some(HeaderCodec::ImplicitVRLittleEndian),
                    (Endianness::Big, false) => None,
                }
            },
        }
    }
}

/// Whether an adapter can be attached to a codec: the codec encapsulates
/// pixel data.
pub open spec fn adaptable(codec: Codec) -> bool {
    codec == Codec::EncapsulatedPixelData || codec is PixelAdapter
}

/// An identifier without the one NUL that may pad it to an even length.
pub open spec fn trimmed(uid: Seq<char>) -> Seq<char> {
    if uid.len() > 0 && uid.last() == '\0' {
        uid.drop_last()
    } else {
        uid
    }
}

/// The place of the first of `entries` with the identifier `uid`; the number
/// of entries where there is none.
pub open spec fn first_with(entries: Seq<TransferSyntaxModel>, uid: Seq<char>) -> nat
    decreases entries.len(),
{
    if entries.len() == 0 {
        0
    } else if entries[0].uid == uid {
        0
    } else {
        1 + first_with(entries.skip(1), uid)
    }
}

/// The transfer syntax among `entries` with the identifier `uid`.
pub open spec fn find(entries: Seq<TransferSyntaxModel>, uid: Seq<char>) -> Option<
    TransferSyntaxModel,
> {
    if first_with(entries, uid) < entries.len() {
        Some(entries[first_with(entries, uid) as int])
    } else {
        None
    }
}

/// Whether no two of `entries` have the same identifier.
pub open spec fn distinct(entries: Seq<TransferSyntaxModel>) -> bool {
    forall|i: int, j: int| 0 <= i < j < entries.len() ==> entries[i].uid != entries[j].uid
}

/// The first entry with an identifier comes before every other with it.
pub proof fn lemma_first_with(entries: Seq<TransferSyntaxModel>, uid: Seq<char>)
    ensures
        first_with(entries, uid) <= entries.len(),
        first_with(entries, uid) < entries.len() ==> entries[first_with(entries, uid) as int].uid
            == uid,
        forall|i: int| 0 <= i < first_with(entries, uid) ==> entries[i].uid != uid,
    decreases entries.len(),
{
    if entries.len() == 0 {
    } else if entries[0].uid == uid {
    } else {
        let rest = entries.skip(1);
        lemma_first_with(rest, uid);
        assert forall|i: int| 0 <= i < first_with(entries, uid) implies entries[i].uid != uid by {
            if i > 0 {
                assert(rest[i - 1] == entries[i]);
            }
        }
        if first_with(entries, uid) < entries.len() {
            assert(rest[first_with(rest, uid) as int] == entries[first_with(entries, uid) as int]);
        }
    }
}

/// The built-in transfer syntaxes.
pub open spec fn built_in() -> Seq<TransferSyntaxModel> {
    seq![
        TransferSyntaxModel {
            uid: "1.2.840.10008.1.2"@,
            name: "Implicit VR Little Endian"@,
            byte_order: Endianness::Little,
            explicit_vr: false,
            codec: Codec::Native,
        },
        TransferSyntaxModel {
            uid: "1.2.840.10008.1.2.1"@,
            name: "Explicit VR Little Endian"@,
            byte_order: Endianness::Little,
            explicit_vr: true,
            codec: Codec::Native,
        },
        TransferSyntaxModel {
            uid: "1.2.840.10008.1.2.2"@,
            name: "Explicit VR Big Endian"@,
            byte_order: Endianness::Big,
            explicit_vr: true,
            codec: Codec::Native,
        },
        TransferSyntaxModel {
            uid: "1.2.840.10008.1.2.1.99"@,
            name: "Deflated Explicit VR Little Endian"@,
            byte_order: Endianness::Little,
            explicit_vr: true,
            codec: Codec::Unsupported,
        },
        TransferSyntaxModel {
            uid: "1.2.840.10008.1.2.4.50"@,
            name: "JPEG Baseline (Process 1)"@,
            byte_order: Endianness::Little,
            explicit_vr: true,
            codec: Codec::EncapsulatedPixelData,
        },
        TransferSyntaxModel {
            uid: "1.2.840.10008.1.2.4.51"@,
            name: "JPEG Extended (Process 2 & 4)"@,
            byte_order: Endianness::Little,
            explicit_vr: true,
            codec: Codec::EncapsulatedPixelData,
        },
        TransferSyntaxModel {
            uid: "1.2.840.10008.1.2.4.57"@,
            name: "JPEG Lossless, Non-Hierarchical (Process 14)"@,
            byte_order: Endianness::Little,
            explicit_vr: true,
            codec: Codec::EncapsulatedPixelData,
        },
        TransferSyntaxModel {
            uid: "1.2.840.10008.1.2.4.70"@,
            name: "JPEG Lossless, Non-Hierarchical, First-Order Prediction"@,
            byte_order: Endianness::Little,
            explicit_vr: true,
            codec: Codec::EncapsulatedPixelData,
        },
        TransferSyntaxModel {
            uid: "1.2.840.10008.1.2.4.80"@,
            name: "JPEG-LS Lossless Image Compression"@,
            byte_order: Endianness::Little,
            explicit_vr: true,
            codec: Codec::EncapsulatedPixelData,
        },
        TransferSyntaxModel {
            uid: "1.2.840.10008.1.2.4.81"@,
            name: "JPEG-LS Lossy (Near-Lossless) Image Compression"@,
            byte_order: Endianness::Little,
            explicit_vr: true,
            codec: Codec::EncapsulatedPixelData,
        },
        TransferSyntaxModel {
            uid: "1.2.840.10008.1.2.4.90"@,
            name: "JPEG 2000 Image Compression (Lossless Only)"@,
            byte_order: Endianness::Little,
            explicit_vr: true,
            codec: Codec::EncapsulatedPixelData,
        },
        TransferSyntaxModel {
            uid: "1.2.840.10008.1.2.4.91"@,
            name: "JPEG 2000 Image Compression"@,
            byte_order: Endianness::Little,
            explicit_vr: true,
            codec: Codec::EncapsulatedPixelData,
        },
        TransferSyntaxModel {
            uid: "1.2.840.10008.1.2.4.92"@,
            name: "JPEG 2000 Part 2 Multi-component Image Compression (Lossless Only)"@,
            byte_order: Endianness::Little,
            explicit_vr: true,
            codec: Codec::EncapsulatedPixelData,
        },
        TransferSyntaxModel {
            uid: "1.2.840.10008.1.2.4.93"@,
            name: "JPEG 2000 Part 2 Multi-component Image Compression"@,
            byte_order: Endianness::Little,
            explicit_vr: true,
            codec: Codec::EncapsulatedPixelData,
        },
        TransferSyntaxModel {
            uid: "1.2.840.10008.1.2.5"@,
            name: "RLE Lossless"@,
            byte_order: Endianness::Little,
            explicit_vr: true,
            codec: Codec::EncapsulatedPixelData,
        },
    ]
}

/// No two of the built-in transfer syntaxes have the same identifier.
pub proof fn lemma_built_in_distinct()
    ensures
        distinct(built_in()),
{
    reveal_strlit("1.2.840.10008.1.2");
    reveal_strlit("1.2.840.10008.1.2.1");
    reveal_strlit("1.2.840.10008.1.2.2");
    reveal_strlit("1.2.840.10008.1.2.1.99");
    reveal_strlit("1.2.840.10008.1.2.4.50");
    reveal_strlit("1.2.840.10008.1.2.4.51");
    reveal_strlit("1.2.840.10008.1.2.4.57");
    reveal_strlit("1.2.840.10008.1.2.4.70");
    reveal_strlit("1.2.840.10008.1.2.4.80");
    reveal_strlit("1.2.840.10008.1.2.4.81");
    reveal_strlit("1.2.840.10008.1.2.4.90");
    reveal_strlit("1.2.840.10008.1.2.4.91");
    reveal_strlit("1.2.840.10008.1.2.4.92");
    reveal_strlit("1.2.840.10008.1.2.4.93");
    reveal_strlit("1.2.840.10008.1.2.5");
    let b = built_in();
    assert forall|i: int, j: int| 0 <= i < j < b.len() implies b[i].uid != b[j].uid by {
        let x = b[i].uid;
        let y = b[j].uid;
        if x.len() == y.len() {
            assert(x[x.len() - 1] != y[y.len() - 1] || x[x.len() - 2] != y[y.len() - 2] || x[x.len() - 4]
                != y[y.len() - 4]);
        }
    }
}

/// The mathematical values of a list of transfer syntaxes.
pub open spec fn syntax_models(entries: Seq<TransferSyntax>) -> Seq<TransferSyntaxModel> {
    Seq::new(entries.len(), |i: int| entries[i]@)
}

/// The registry of transfer syntaxes: the built-in ones and those that were
/// submitted while the registry was built. Once built it does not change.
#[derive(Debug)]
pub struct TransferSyntaxRegistry {
    entries: Vec<TransferSyntax>,
}

/// The builder of a registry. It starts with the built-in transfer syntaxes
/// and takes submissions. Of two submissions with the same identifier the
/// first one stays and the second is turned away.
#[derive(Debug)]
pub struct TransferSyntaxRegistryBuilder {
    entries: Vec<TransferSyntax>,
}

/// The place of the first of `entries` with the identifier `uid`.
fn index_of(entries: &Vec<TransferSyntax>, uid: &String) -> (k: usize)
    ensures
        k == first_with(syntax_models(entries@), uid@),
        k <= entries@.len(),
{
    let ghost models = syntax_models(entries@);
    let mut i: usize = 0;
    assert(models.skip(0) =~= models);
    while i < entries.len()
        invariant
            i <= entries@.len(),
            models == syntax_models(entries@),
            first_with(models, uid@) == i + first_with(models.skip(i as int), uid@),
        decreases entries@.len() - i,
    {
        assert(models.skip(i as int)[0] == entries@[i as int]@);
        if entries[i].uid == *uid {
            return i;
        }
        assert(models.skip(i as int).skip(1) =~= models.skip(i + 1));
        i = i + 1;
    }
    assert(models.skip(i as int).len() == 0);
    i
}

/// An identifier without the one NUL that may pad it to an even length.
pub fn trim_uid(uid: &str) -> (s: String)
    ensures
        s@ == trimmed(uid@),
{
    let n: usize = uid.unicode_len();
    if n > 0 && uid.get_char(n - 1) == '\0' {
        let t: &str = uid.substring_char(0, n - 1);
        assert(t@ =~= uid@.drop_last());
        t.to_owned()
    } else {
        uid.to_owned()
    }
}

impl TransferSyntaxRegistryBuilder {
    /// The transfer syntaxes taken so far, in the order in which they came.
    pub closed spec fn model(&self) -> Seq<TransferSyntaxModel> {
        syntax_models(self.entries@)
    }

    #[verifier::type_invariant]
    closed spec fn unique(&self) -> bool {
        distinct(syntax_models(self.entries@))
    }

    /// A builder that holds the built-in transfer syntaxes.
    pub fn new() -> (b: TransferSyntaxRegistryBuilder)
        ensures
            b.model() == built_in(),
    {
        let mut entries: Vec<TransferSyntax> = Vec::new();
        entries.push(
            TransferSyntax::new(
                "1.2.840.10008.1.2",
                "Implicit VR Little Endian",
                Endianness::Little,
                false,
                Codec::Native,
            ),
        );
        entries.push(
            TransferSyntax::new(
                "1.2.840.10008.1.2.1",
                "Explicit VR Little Endian",
                Endianness::Little,
                true,
                Codec::Native,
            ),
        );
        entries.push(
            TransferSyntax::new(
                "1.2.840.10008.1.2.2",
                "Explicit VR Big Endian",
                Endianness::Big,
                true,
                Codec::Native,
            ),
        );
        entries.push(
            TransferSyntax::new(
                "1.2.840.10008.1.2.1.99",
                "Deflated Explicit VR Little Endian",
                Endianness::Little,
                true,
                Codec::Unsupported,
            ),
        );
        entries.push(
            TransferSyntax::new(
                "1.2.840.10008.1.2.4.50",
                "JPEG Baseline (Process 1)",
                Endianness::Little,
                true,
                Codec::EncapsulatedPixelData,
            ),
        );
        entries.push(
            TransferSyntax::new(
                "1.2.840.10008.1.2.4.51",
                "JPEG Extended (Process 2 & 4)",
                Endianness::Little,
                true,
                Codec::EncapsulatedPixelData,
            ),
        );
        entries.push(
            TransferSyntax::new(
                "1.2.840.10008.1.2.4.57",
                "JPEG Lossless, Non-Hierarchical (Process 14)",
                Endianness::Little,
                true,
                Codec::EncapsulatedPixelData,
            ),
        );
        entries.push(
            TransferSyntax::new(
                "1.2.840.10008.1.2.4.70",
                "JPEG Lossless, Non-Hierarchical, First-Order Prediction",
                Endianness::Little,
                true,
                Codec::EncapsulatedPixelData,
            ),
        );
        entries.push(
            TransferSyntax::new(
                "1.2.840.10008.1.2.4.80",
                "JPEG-LS Lossless Image Compression",
                Endianness::Little,
                true,
                Codec::EncapsulatedPixelData,
            ),
        );
        entries.push(
            TransferSyntax::new(
                "1.2.840.10008.1.2.4.81",
                "JPEG-LS Lossy (Near-Lossless) Image Compression",
                Endianness::Little,
                true,
                Codec::EncapsulatedPixelData,
            ),
        );
        entries.push(
            TransferSyntax::new(
                "1.2.840.10008.1.2.4.90",
                "JPEG 2000 Image Compression (Lossless Only)",
                Endianness::Little,
                true,
                Codec::EncapsulatedPixelData,
            ),
        );
        entries.push(
            TransferSyntax::new(
                "1.2.840.10008.1.2.4.91",
                "JPEG 2000 Image Compression",
                Endianness::Little,
                true,
                Codec::EncapsulatedPixelData,
            ),
        );
        entries.push(
            TransferSyntax::new(
                "1.2.840.10008.1.2.4.92",
                "JPEG 2000 Part 2 Multi-component Image Compression (Lossless Only)",
                Endianness::Little,
                true,
                Codec::EncapsulatedPixelData,
            ),
        );
        entries.push(
            TransferSyntax::new(
                "1.2.840.10008.1.2.4.93",
                "JPEG 2000 Part 2 Multi-component Image Compression",
                Endianness::Little,
                true,
                Codec::EncapsulatedPixelData,
            ),
        );
        entries.push(
            TransferSyntax::new(
                "1.2.840.10008.1.2.5",
                "RLE Lossless",
                Endianness::Little,
                true,
                Codec::EncapsulatedPixelData,
            ),
        );
        assert(syntax_models(entries@) =~= built_in());
        proof {
            lemma_built_in_distinct();
        }
        TransferSyntaxRegistryBuilder { entries }
    }

    /// Submits a transfer syntax. It is taken, and `true` comes back, where
    /// no transfer syntax with the same identifier was taken before; else
    /// nothing changes and `false` comes back.
    pub fn register(&mut self, ts: TransferSyntax) -> (taken: bool)
        ensures
            taken == (find(old(self).model(), ts@.uid) is None),
            taken ==> final(self).model() == old(self).model().push(ts@),
            !taken ==> final(self).model() == old(self).model(),
            distinct(final(self).model()),
    {
        proof {
            use_type_invariant(&*self);
            lemma_first_with(syntax_models(self.entries@), ts@.uid);
        }
        let k: usize = index_of(&self.entries, &ts.uid);
        if k < self.entries.len() {
            false
        } else {
            let mut entries: Vec<TransferSyntax> = Vec::new();
            assert(distinct(syntax_models(entries@)));
            std::mem::swap(&mut self.entries, &mut entries);
            let ghost before = syntax_models(entries@);
            entries.push(ts);
            assert(syntax_models(entries@) =~= before.push(ts@));
            assert(distinct(syntax_models(entries@)));
            std::mem::swap(&mut self.entries, &mut entries);
            true
        }
    }

    /// Says that there is an adapter for the pixel data of a transfer syntax
    /// that encapsulates it, and which ways the adapter works. This takes
    /// effect, and `true` comes back, where the transfer syntax of the
    /// identifier was taken and has the codec `EncapsulatedPixelData` or an
    /// adapter already; else nothing changes and `false` comes back.
    pub fn attach_adapter(&mut self, uid: &str, decode: bool, encode: bool) -> (attached: bool)
        ensures
            attached == (find(old(self).model(), uid@) matches Some(ts) && adaptable(ts.codec)),
            attached ==> final(self).model() == old(self).model().update(
                first_with(old(self).model(), uid@) as int,
                TransferSyntaxModel {
                    codec: Codec::PixelAdapter { decode, encode },
                    ..old(self).model()[first_with(old(self).model(), uid@) as int]
                },
            ),
            !attached ==> final(self).model() == old(self).model(),
            distinct(final(self).model()),
    {
        proof {
            use_type_invariant(&*self);
            lemma_first_with(syntax_models(self.entries@), uid@);
        }
        let key: String = uid.to_owned();
        let k: usize = index_of(&self.entries, &key);
        if k >= self.entries.len() {
            return false;
        }
        let adaptable: bool = match self.entries[k].codec {
            Codec::EncapsulatedPixelData => true,
            Codec::PixelAdapter { decode, encode } => true,
            _ => false,
        };
        if !adaptable {
            return false;
        }
        let mut entries: Vec<TransferSyntax> = Vec::new();
        assert(distinct(syntax_models(entries@)));
        std::mem::swap(&mut self.entries, &mut entries);
        let ghost before = syntax_models(entries@);
        let was: TransferSyntax = entries.remove(k);
        let now = TransferSyntax {
            uid: was.uid,
            name: was.name,
            byte_order: was.byte_order,
            explicit_vr: was.explicit_vr,
            codec: Codec::PixelAdapter { decode, encode },
        };
        entries.insert(k, now);
        assert(syntax_models(entries@) =~= before.update(
            k as int,
            TransferSyntaxModel { codec: Codec::PixelAdapter { decode, encode }, ..before[k as int] },
        ));
        assert(distinct(syntax_models(entries@))) by {
            let after = syntax_models(entries@);
            assert forall|i: int, j: int| 0 <= i < j < after.len() implies after[i].uid
                != after[j].uid by {
                assert(after[i].uid == before[i].uid && after[j].uid == before[j].uid);
            }
        }
        std::mem::swap(&mut self.entries, &mut entries);
        true
    }

    /// The registry of what was taken.
    pub fn build(self) -> (r: TransferSyntaxRegistry)
        ensures
            r.model() == self.model(),
            distinct(r.model()),
    {
        proof {
            use_type_invariant(&self);
        }
        TransferSyntaxRegistry { entries: self.entries }
    }
}

impl TransferSyntaxRegistry {
    /// The transfer syntaxes of the registry.
    pub closed spec fn model(&self) -> Seq<TransferSyntaxModel> {
        syntax_models(self.entries@)
    }

    #[verifier::type_invariant]
    closed spec fn unique(&self) -> bool {
        distinct(syntax_models(self.entries@))
    }

    /// The registry of the built-in transfer syntaxes.
    pub fn new() -> (r: TransferSyntaxRegistry)
        ensures
            r.model() == built_in(),
    {
        TransferSyntaxRegistryBuilder::new().build()
    }

    /// The number of transfer syntaxes.
    pub fn len(&self) -> (n: usize)
        ensures
            n == self.model().len(),
            distinct(self.model()),
    {
        proof {
            use_type_invariant(self);
        }
        self.entries.len()
    }

    /// Finds a transfer syntax by its identifier. One NUL at the end of the
    /// identifier, which pads it to an even length, is left out of account.
    pub fn get(&self, uid: &str) -> (r: Option<&TransferSyntax>)
        ensures
            match r {
                Some(ts) => find(self.model(), trimmed(uid@)) == Some(ts@),
                None => find(self.model(), trimmed(uid@)) is None,
            },
    {
        let key: String = trim_uid(uid);
        let k: usize = index_of(&self.entries, &key);
        if k < self.entries.len() {
            Some(&self.entries[k])
        } else {
            None
        }
    }
}

/// An identifier that does not end in NUL names the same transfer syntax
/// with one NUL added at its end as without.
pub proof fn lemma_padded_uid(entries: Seq<TransferSyntaxModel>, uid: Seq<char>)
    requires
        uid.len() == 0 || uid.last() != '\0',
    ensures
        find(entries, trimmed(uid.push('\0'))) == find(entries, trimmed(uid)),
{
    assert(uid.push('\0').drop_last() =~= uid);
}

} // verus!
