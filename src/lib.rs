//! Classification of Android settings namespaces.
//!
//! A settings namespace is named by one of three fixed ASCII labels,
//! `"system"`, `"secure"` and `"global"`. [`AndroidSettingCategory::new`]
//! accepts any text and recognises exactly those labels;
//! [`AndroidSettingCategory::new_unchecked`] is the fast path for input that
//! is already known to be a label, and reads a single byte of it.
use vstd::prelude::*;
use vstd::string::StringSliceAdditionalSpecFns;

verus! {

/// Number of bytes in every label.
pub const LABEL_LEN: usize = 6;

/// Offset of the byte whose two low bits tell the labels apart.
pub const KEY_OFFSET: usize = 3;

/// Mask that keeps the two low bits of the key byte.
pub const KEY_MASK: u8 = 3;

/// The namespace a setting lives in.
///
/// Each variant has a fixed discriminant, given by
/// [`AndroidSettingCategory::discriminant`]: `System` is 0, `Secure` is 1 and
/// `Global` is 2.
#[derive(Debug, Clone, Copy, PartialEq, Eq, Structural)]
pub enum AndroidSettingCategory {
    System,
    Secure,
    Global,
}

impl AndroidSettingCategory {
    /// The label that names this category, as ASCII bytes: `"system"`,
    /// `"secure"` or `"global"`.
    pub open spec fn label(self) -> Seq<u8> {
        match self {
            AndroidSettingCategory::System => seq![115, 121, 115, 116, 101, 109],
            AndroidSettingCategory::Secure => seq![115, 101, 99, 117, 114, 101],
            AndroidSettingCategory::Global => seq![103, 108, 111, 98, 97, 108],
        }
    }

    /// The fixed discriminant of this category.
    pub open spec fn spec_discriminant(self) -> u8 {
        match self {
            AndroidSettingCategory::System => 0,
            AndroidSettingCategory::Secure => 1,
            AndroidSettingCategory::Global => 2,
        }
    }

    /// The category whose label is exactly `b`, if there is one.
    pub open spec fn of_bytes(b: Seq<u8>) -> Option<AndroidSettingCategory> {
        if b == AndroidSettingCategory::System.label() {
            Some(AndroidSettingCategory::System)
        } else if b == AndroidSettingCategory::Secure.label() {
            Some(AndroidSettingCategory::Secure)
        } else if b == AndroidSettingCategory::Global.label() {
            Some(AndroidSettingCategory::Global)
        } else {
            None
        }
    }

    /// Whether `b` is one of the three labels.
    pub open spec fn is_label(b: Seq<u8>) -> bool {
        exists|c: AndroidSettingCategory| b == c.label()
    }

    /// Classifies `s`: the category whose label equals `s` byte for byte, or
    /// `None` for any other text. There is no case folding and no trimming.
    #[must_use]
    pub fn new(s: &str) -> (r: Option<AndroidSettingCategory>)
        ensures
            r == AndroidSettingCategory::of_bytes(s.spec_bytes()),
    {
        let b = s.as_bytes();
        if has_label(b, AndroidSettingCategory::System) {
            Some(AndroidSettingCategory::System)
        } else if has_label(b, AndroidSettingCategory::Secure) {
            Some(AndroidSettingCategory::Secure)
        } else if has_label(b, AndroidSettingCategory::Global) {
            Some(AndroidSettingCategory::Global)
        } else {
            None
        }
    }

    /// Classifies `s`, which must already be known to be one of the three
    /// labels. Only the key byte is read: its two low bits are the
    /// discriminant of the category.
    ///
    /// On a label this returns what [`AndroidSettingCategory::new`] returns
    /// for the same bytes. Nothing is checked at run time: on other bytes the
    /// result is some category, or a panic if `s` is shorter than four bytes.
    #[must_use]
    pub fn new_unchecked(s: &[u8]) -> (r: AndroidSettingCategory)
        requires
            AndroidSettingCategory::is_label(s@),
        ensures
            s@ == r.label(),
            AndroidSettingCategory::of_bytes(s@) == Some(r),
    {
        let ghost c = choose|c: AndroidSettingCategory| s@ == c.label();
        proof {
            lemma_key_is_discriminant(c);
        }
        let i: u8 = s[KEY_OFFSET] & KEY_MASK;
        let r = match i {
            0 => AndroidSettingCategory::System,
            1 => AndroidSettingCategory::Secure,
            _ => AndroidSettingCategory::Global,
        };
        proof {
            lemma_label_round_trip(c, r);
        }
        r
    }

    /// The fixed discriminant of this category: 0 for `System`, 1 for
    /// `Secure`, 2 for `Global`.
    pub fn discriminant(self) -> (r: u8)
        ensures
            r == self.spec_discriminant(),
    {
        match self {
            AndroidSettingCategory::System => 0,
            AndroidSettingCategory::Secure => 1,
            AndroidSettingCategory::Global => 2,
        }
    }
}

/// Whether `b` is, byte for byte, the label of `c`.
fn has_label(b: &[u8], c: AndroidSettingCategory) -> (r: bool)
    ensures
        r == (b@ == c.label()),
{
    // The labels' ASCII codes, as in `label`.
    let label: [u8; LABEL_LEN] = match c {
        AndroidSettingCategory::System => [115, 121, 115, 116, 101, 109],
        AndroidSettingCategory::Secure => [115, 101, 99, 117, 114, 101],
        AndroidSettingCategory::Global => [103, 108, 111, 98, 97, 108],
    };
    assert(label@ =~= c.label());
    if b.len() != LABEL_LEN {
        return false;
    }
    let mut i: usize = 0;
    while i < LABEL_LEN
        invariant
            i <= LABEL_LEN,
            b@.len() == LABEL_LEN,
            label@ == c.label(),
            forall|j: int| 0 <= j < i ==> b@[j] == label@[j],
        decreases LABEL_LEN - i,
    {
        if b[i] != label[i] {
            return false;
        }
        i = i + 1;
    }
    assert(b@ =~= c.label());
    true
}

/// Each label classifies as its own category, and distinct categories have
/// distinct labels: classification is a bijection between the three labels
/// and the three categories.
pub proof fn lemma_label_round_trip(a: AndroidSettingCategory, b: AndroidSettingCategory)
    ensures
        AndroidSettingCategory::of_bytes(a.label()) == Some(a),
        a != b ==> a.label() != b.label(),
{
    if a != b {
        assert(a.label()[KEY_OFFSET as int] != b.label()[KEY_OFFSET as int]);
    }
    let s = AndroidSettingCategory::System;
    let e = AndroidSettingCategory::Secure;
    assert(s.label()[KEY_OFFSET as int] != e.label()[KEY_OFFSET as int]);
    assert(s.label()[KEY_OFFSET as int] != AndroidSettingCategory::Global.label()[KEY_OFFSET as int]);
    assert(e.label()[KEY_OFFSET as int] != AndroidSettingCategory::Global.label()[KEY_OFFSET as int]);
}

/// Classification is exact: it yields a category precisely when the bytes
/// are that category's label, and nothing for any other bytes (the empty
/// sequence, a prefix or extension of a label, a label in another case, or
/// a label with one byte changed).
pub proof fn lemma_only_labels_classify(b: Seq<u8>)
    ensures
        AndroidSettingCategory::of_bytes(b) is Some <==> AndroidSettingCategory::is_label(b),
        forall|c: AndroidSettingCategory|
            #![trigger c.label()]
            AndroidSettingCategory::of_bytes(b) == Some(c) <==> b == c.label(),
{
    if AndroidSettingCategory::is_label(b) {
        let c = choose|c: AndroidSettingCategory| b == c.label();
        lemma_label_round_trip(c, c);
    }
    assert forall|c: AndroidSettingCategory|
        #![trigger c.label()]
        AndroidSettingCategory::of_bytes(b) == Some(c) <==> b == c.label() by {
        lemma_label_round_trip(c, c);
    }
}

/// The key byte of every label, masked to its two low bits, is the
/// discriminant of the label's category; the discriminants are 0, 1 and 2,
/// one for each category.
pub proof fn lemma_key_is_discriminant(c: AndroidSettingCategory)
    ensures
        c.label().len() == LABEL_LEN,
        c.label()[KEY_OFFSET as int] & KEY_MASK == c.spec_discriminant(),
        c.spec_discriminant() < 3,
        forall|d: AndroidSettingCategory|
            #![trigger d.spec_discriminant()]
            d.spec_discriminant() == c.spec_discriminant() ==> d == c,
{
    assert(116u8 & 3u8 == 0u8) by (bit_vector);
    assert(117u8 & 3u8 == 1u8) by (bit_vector);
    assert(98u8 & 3u8 == 2u8) by (bit_vector);
}

} // verus!
