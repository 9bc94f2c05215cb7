use dicom_codec::endian::Endianness;
use dicom_codec::registry::{
    trim_uid, Codec, HeaderCodec, TransferSyntax, TransferSyntaxRegistry,
    TransferSyntaxRegistryBuilder,
};

fn assert_fully_supported(registry: &TransferSyntaxRegistry, mut uid: &'static str, name: &'static str) {
    let ts = registry.get(uid);
    assert!(ts.is_some(), "Registry did not provide TS {}", uid);
    let ts = ts.unwrap();
    if uid.ends_with("\0") {
        uid = &uid[0..uid.len() - 1];
    }
    assert_eq!(ts.uid(), uid);
    assert_eq!(ts.name(), name);
    assert!(ts.fully_supported());
}

#[test]
fn contains_base_ts() {
    let registry = TransferSyntaxRegistry::new();

    // contains implicit VR little endian and is fully supported
    assert_fully_supported(&registry, "1.2.840.10008.1.2", "Implicit VR Little Endian");

    // should work the same for trailing null characters
    assert_fully_supported(&registry, "1.2.840.10008.1.2\0", "Implicit VR Little Endian");

    // contains explicit VR little endian and is fully supported
    assert_fully_supported(&registry, "1.2.840.10008.1.2.1", "Explicit VR Little Endian");

    // contains explicit VR big endian and is fully supported
    assert_fully_supported(&registry, "1.2.840.10008.1.2.2", "Explicit VR Big Endian");
}

const ALWAYS_DUMMY: &str = "1.2.840.10008.1.999.9999.99999.2";
const FOREVER_DUMMY: &str = "1.2.840.10008.1.999.9999.99999.3";
const FOREVER_DUMMY_NAME: &str = "Forever Dummy Hierarchical Little Endian";

fn registry_with_stubs() -> TransferSyntaxRegistry {
    let mut builder = TransferSyntaxRegistryBuilder::new();
    assert!(builder.register(TransferSyntax::new_ele(
        "1.2.840.10008.1.999.9999.99999",
        "Dummy Little Endian",
        Codec::EncapsulatedPixelData,
    )));
    assert!(builder.register(TransferSyntax::new_ele(
        ALWAYS_DUMMY,
        "Always Dummy Lossless Little Endian",
        Codec::EncapsulatedPixelData,
    )));
    assert!(builder.register(TransferSyntax::new_ele(
        FOREVER_DUMMY,
        FOREVER_DUMMY_NAME,
        Codec::EncapsulatedPixelData,
    )));
    builder.build()
}

#[test]
fn contains_stub_ts() {
    let registry = registry_with_stubs();
    // contains our stub TS, not fully fully supported,
    // but enough to read some datasets
    let ts = registry.get("1.2.840.10008.1.999.9999.99999");
    assert!(ts.is_some());
    let ts = ts.unwrap();
    assert_eq!(ts.uid(), "1.2.840.10008.1.999.9999.99999");
    assert_eq!(ts.name(), "Dummy Little Endian");
    assert!(!ts.fully_supported());
    assert!(ts.unsupported_pixel_encapsulation());
    // can obtain a data set decoder
    assert!(ts.decoder().is_some());

    let ts = registry.get("1.2.840.10008.1.999.9999.99999.2");
    assert!(ts.is_some());
    let ts = ts.unwrap();
    assert_eq!(ts.name(), "Always Dummy Lossless Little Endian");
    let ts = registry.get("1.2.840.10008.1.999.9999.99999.3");
    assert!(ts.is_some());
    let ts = ts.unwrap();
    assert_eq!(ts.name(), "Forever Dummy Hierarchical Little Endian");
}

#[test]
fn one_trailing_nul_is_left_out_of_account() {
    let registry = registry_with_stubs();
    for uid in ["1.2.840.10008.1.2", "1.2.840.10008.1.2.4.50", ALWAYS_DUMMY, "9.9.9", ""] {
        let padded = format!("{}\0", uid);
        assert_eq!(
            registry.get(uid).map(|ts| ts.uid().to_string()),
            registry.get(&padded).map(|ts| ts.uid().to_string())
        );
    }
    assert!(registry.get("1.2.840.10008.1.2\0").is_some());
    assert!(registry.get("1.2.840.10008.1.2\0\0").is_none());
    assert!(registry.get("1.2.840.10008.1.2 ").is_none());
    assert_eq!(trim_uid("1.2\0"), "1.2");
    assert_eq!(trim_uid("1.2\0\0"), "1.2\0");
    assert_eq!(trim_uid("1.2"), "1.2");
    assert_eq!(trim_uid(""), "");
}

#[test]
fn the_first_of_two_submissions_stays() {
    let mut builder = TransferSyntaxRegistryBuilder::new();
    assert!(builder.register(TransferSyntax::new_ele("1.2.3", "First", Codec::Native)));
    assert!(!builder.register(TransferSyntax::new_ele("1.2.3", "Second", Codec::Unsupported)));
    assert!(!builder.register(TransferSyntax::new_ele(
        "1.2.840.10008.1.2",
        "Another Implicit",
        Codec::Unsupported
    )));
    let registry = builder.build();
    assert_eq!(registry.len(), TransferSyntaxRegistry::new().len() + 1);
    assert_eq!(registry.get("1.2.3").unwrap().name(), "First");
    assert_eq!(registry.get("1.2.840.10008.1.2").unwrap().name(), "Implicit VR Little Endian");
}

#[test]
fn descriptors_say_what_is_supported() {
    let registry = TransferSyntaxRegistry::new();
    let implicit = registry.get("1.2.840.10008.1.2").unwrap();
    assert_eq!(implicit.endianness(), Endianness::Little);
    assert!(!implicit.explicit_vr());
    assert_eq!(implicit.codec(), Codec::Native);
    assert_eq!(implicit.decoder(), Some(HeaderCodec::ImplicitVRLittleEndian));
    let big = registry.get("1.2.840.10008.1.2.2").unwrap();
    assert_eq!(big.endianness(), Endianness::Big);
    assert_eq!(big.decoder(), Some(HeaderCodec::ExplicitVRBigEndian));
    for uid in [
        "1.2.840.10008.1.2.4.50",
        "1.2.840.10008.1.2.4.51",
        "1.2.840.10008.1.2.4.57",
        "1.2.840.10008.1.2.4.70",
        "1.2.840.10008.1.2.4.80",
        "1.2.840.10008.1.2.4.81",
        "1.2.840.10008.1.2.4.90",
        "1.2.840.10008.1.2.4.91",
        "1.2.840.10008.1.2.5",
    ] {
        let ts = registry.get(uid).unwrap();
        assert_eq!(ts.codec(), Codec::EncapsulatedPixelData);
        assert!(!ts.fully_supported());
        assert!(!ts.unsupported());
        assert!(ts.unsupported_pixel_encapsulation());
        assert_eq!(ts.decoder(), Some(HeaderCodec::ExplicitVRLittleEndian));
    }
    let deflated = registry.get("1.2.840.10008.1.2.1.99").unwrap();
    assert!(deflated.unsupported());
    assert_eq!(deflated.decoder(), None);
    let adapted = TransferSyntax::new_ele(
        "1.2.3",
        "Adapted",
        Codec::PixelAdapter { decode: true, encode: true },
    );
    assert!(adapted.fully_supported());
    let half = TransferSyntax::new(
        "1.2.4",
        "Half",
        Endianness::Big,
        false,
        Codec::PixelAdapter { decode: true, encode: false },
    );
    assert!(!half.fully_supported());
    assert!(!half.unsupported_pixel_encapsulation());
    assert_eq!(half.decoder(), None);
    assert!(TransferSyntax::new_ele("1.2.5", "Set", Codec::Dataset).fully_supported());
}

#[test]
fn adapters_attach_to_encapsulating_syntaxes() {
    let mut builder = TransferSyntaxRegistryBuilder::new();
    assert!(builder.attach_adapter("1.2.840.10008.1.2.4.50", true, false));
    assert!(builder.attach_adapter("1.2.840.10008.1.2.5", true, true));
    assert!(builder.attach_adapter("1.2.840.10008.1.2.5", true, true));
    assert!(!builder.attach_adapter("1.2.840.10008.1.2", true, true));
    assert!(!builder.attach_adapter("1.2.840.10008.1.2.1.99", true, true));
    assert!(!builder.attach_adapter("9.9.9", true, true));
    assert!(!builder.attach_adapter("1.2.840.10008.1.2.5\0", true, true));
    let registry = builder.build();
    assert_eq!(registry.len(), TransferSyntaxRegistry::new().len());
    let jpeg = registry.get("1.2.840.10008.1.2.4.50").unwrap();
    assert_eq!(jpeg.codec(), Codec::PixelAdapter { decode: true, encode: false });
    assert_eq!(jpeg.name(), "JPEG Baseline (Process 1)");
    assert!(!jpeg.fully_supported());
    assert!(registry.get("1.2.840.10008.1.2.5").unwrap().fully_supported());
    assert_eq!(registry.get("1.2.840.10008.1.2").unwrap().codec(), Codec::Native);
    assert_eq!(
        registry.get("1.2.840.10008.1.2.4.51").unwrap().codec(),
        Codec::EncapsulatedPixelData
    );
}
