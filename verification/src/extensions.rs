//! Extensions of a key package: a type and opaque data.
use crate::encode_util::{encode_slice, spec_be_bytes, spec_encode_slice, LenType};
use crate::traits::Encode;
use vstd::prelude::*;

verus! {

/// The registered number of a kind of extension.
pub type ExtensionType = u16;

/// One extension: its registered type and its data.
#[derive(Debug)]
pub struct Extension {
    pub extension_type: ExtensionType,
    pub extension_data: Vec<u8>,
}

/// What an extension holds.
pub struct ExtensionView {
    pub extension_type: ExtensionType,
    pub extension_data: Seq<u8>,
}

impl View for Extension {
    type V = ExtensionView;

    open spec fn view(&self) -> ExtensionView {
        ExtensionView {
            extension_type: self.extension_type,
            extension_data: self.extension_data@,
        }
    }
}

impl ExtensionView {
    /// The type in two bytes, then the data behind a 16-bit length.
    pub open spec fn spec_encode(self) -> Seq<u8> {
        spec_be_bytes(self.extension_type as nat, 2) + spec_encode_slice(
            LenType::L16,
            self.extension_data,
        )
    }
}

/// What a list of extensions holds.
pub open spec fn spec_extension_views(extensions: Seq<Extension>) -> Seq<ExtensionView> {
    extensions.map_values(|e: Extension| e@)
}

/// The encodings of the extensions, one after the other.
pub open spec fn spec_extensions_bytes(extensions: Seq<ExtensionView>) -> Seq<u8>
    decreases extensions.len(),
{
    if extensions.len() == 0 {
        Seq::empty()
    } else {
        spec_extensions_bytes(extensions.drop_last()) + extensions.last().spec_encode()
    }
}

/// The encodings of the extensions behind their joint length in 32 bits.
pub open spec fn spec_encode_extensions(extensions: Seq<ExtensionView>) -> Seq<u8> {
    spec_encode_slice(LenType::L32, spec_extensions_bytes(extensions))
}

impl Extension {
    /// The extension of the kind `extension_type` with the data `extension_data`.
    pub fn new(extension_type: ExtensionType, extension_data: Vec<u8>) -> (e: Self)
        ensures
            e@ == (ExtensionView { extension_type, extension_data: extension_data@ }),
    {
        Extension { extension_type, extension_data }
    }

    /// The bytes of the extension.
    pub fn encode(&self) -> (out: Vec<u8>)
        ensures
            out@ == self@.spec_encode(),
    {
        let mut out = self.extension_type.encode();
        encode_slice(LenType::L16, self.extension_data.as_slice(), &mut out);
        out
    }
}

impl Clone for Extension {
    fn clone(&self) -> (e: Self)
        ensures
            e@ == self@,
    {
        let data = self.extension_data.clone();
        assert(data@ =~= self.extension_data@);
        Extension { extension_type: self.extension_type, extension_data: data }
    }
}

/// The bytes of a list of extensions.
pub fn encode_extensions(extensions: &[Extension]) -> (out: Vec<u8>)
    ensures
        out@ == spec_encode_extensions(spec_extension_views(extensions@)),
{
    let mut encoded_extensions: Vec<u8> = Vec::new();
    let ghost views = spec_extension_views(extensions@);
    let mut i: usize = 0;
    while i < extensions.len()
        invariant
            i <= extensions@.len(),
            views == spec_extension_views(extensions@),
            encoded_extensions@ == spec_extensions_bytes(views.subrange(0, i as int)),
        decreases extensions@.len() - i,
    {
        let mut bytes = extensions[i].encode();
        encoded_extensions.append(&mut bytes);
        i += 1;
        proof {
            let s = views.subrange(0, i as int);
            assert(s.drop_last() =~= views.subrange(0, i - 1));
            assert(s.last() == extensions@[i - 1]@);
        }
    }
    assert(views.subrange(0, i as int) =~= views);
    let mut out = Vec::new();
    encode_slice(LenType::L32, encoded_extensions.as_slice(), &mut out);
    assert(out@ =~= spec_encode_extensions(views));
    out
}

} // verus!
