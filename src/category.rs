//! The kind of a number and the mobile carrier, each with a canonical text
//! form and a lenient parser that never fails.
use vstd::prelude::*;

use crate::text::{chars_equal, fold, fold_str};

verus! {

/// The kind of a telephone number.
#[derive(Clone, Debug, PartialEq, Eq, Structural)]
pub enum PhoneType {
    /// A landline number.
    Tel,
    /// A mobile number.
    Mobile,
    /// An international number.
    Idd,
    /// A service number.
    Service,
    /// Anything else.
    Others,
}

impl PhoneType {
    /// The canonical upper-case text of the kind.
    pub open spec fn text(self) -> Seq<char> {
        match self {
            PhoneType::Tel => "TEL"@,
            PhoneType::Mobile => "MOBILE"@,
            PhoneType::Idd => "IDD"@,
            PhoneType::Service => "SERVICE"@,
            PhoneType::Others => "OTHERS"@,
        }
    }

    /// The kind that `s` names, ignoring ASCII case; `Others` when it names none.
    pub open spec fn parse(s: Seq<char>) -> PhoneType {
        let l = fold(s);
        if l == "tel"@ {
            PhoneType::Tel
        } else if l == "mobile"@ {
            PhoneType::Mobile
        } else if l == "idd"@ {
            PhoneType::Idd
        } else if l == "service"@ {
            PhoneType::Service
        } else {
            PhoneType::Others
        }
    }

    /// The canonical text: `TEL`, `MOBILE`, `IDD`, `SERVICE` or `OTHERS`.
    pub fn to_text(&self) -> (r: String)
        ensures
            r@ == self.text(),
    {
        match self {
            PhoneType::Tel => String::from_str("TEL"),
            PhoneType::Mobile => String::from_str("MOBILE"),
            PhoneType::Idd => String::from_str("IDD"),
            PhoneType::Service => String::from_str("SERVICE"),
            PhoneType::Others => String::from_str("OTHERS"),
        }
    }

    /// The kind that `s` names in any ASCII case; `Others` for any other text.
    pub fn from_text(s: &str) -> (r: PhoneType)
        ensures
            r == PhoneType::parse(s@),
    {
        let l = fold_str(s);
        if chars_equal(&l, "tel") {
            PhoneType::Tel
        } else if chars_equal(&l, "mobile") {
            PhoneType::Mobile
        } else if chars_equal(&l, "idd") {
            PhoneType::Idd
        } else if chars_equal(&l, "service") {
            PhoneType::Service
        } else {
            PhoneType::Others
        }
    }
}

impl From<String> for PhoneType {
    fn from(v: String) -> (r: PhoneType) {
        PhoneType::from_text(v.as_str())
    }
}

impl vstd::std_specs::convert::FromSpecImpl<String> for PhoneType {
    open spec fn obeys_from_spec() -> bool {
        true
    }

    open spec fn from_spec(v: String) -> PhoneType {
        PhoneType::parse(v@)
    }
}

/// A mobile carrier.
#[derive(Clone, Debug, PartialEq, Eq, Structural)]
pub enum MobileVendor {
    /// China Mobile.
    Mobile,
    /// China Unicom.
    Unicom,
    /// China Telecom.
    Telecom,
    /// China Broadnet.
    Cbn,
    /// Any other carrier.
    Others,
}

impl MobileVendor {
    /// The canonical text: the carrier's service code and its Chinese name.
    pub open spec fn text(self) -> Seq<char> {
        match self {
            MobileVendor::Mobile => "10086 移动"@,
            MobileVendor::Unicom => "10010 联通"@,
            MobileVendor::Telecom => "10000 电信"@,
            MobileVendor::Cbn => "10099 广电"@,
            MobileVendor::Others => "unknown 未知"@,
        }
    }

    /// The carrier that `s` names by its canonical text, its service code or
    /// its English name, ignoring ASCII case; `Others` when it names none.
    pub open spec fn parse(s: Seq<char>) -> MobileVendor {
        let l = fold(s);
        if l == "10010 联通"@ || l == "10010"@ || l == "unicom"@ {
            MobileVendor::Unicom
        } else if l == "10000 电信"@ || l == "10000"@ || l == "telecom"@ {
            MobileVendor::Telecom
        } else if l == "10086 移动"@ || l == "10086"@ || l == "mobile"@ {
            MobileVendor::Mobile
        } else if l == "10099 广电"@ || l == "10099"@ || l == "cbn"@ {
            MobileVendor::Cbn
        } else {
            MobileVendor::Others
        }
    }

    /// The canonical text, such as `10010 联通`; `unknown 未知` for `Others`.
    pub fn to_text(&self) -> (r: String)
        ensures
            r@ == self.text(),
    {
        match self {
            MobileVendor::Mobile => String::from_str("10086 移动"),
            MobileVendor::Unicom => String::from_str("10010 联通"),
            MobileVendor::Telecom => String::from_str("10000 电信"),
            MobileVendor::Cbn => String::from_str("10099 广电"),
            MobileVendor::Others => String::from_str("unknown 未知"),
        }
    }

    /// The carrier that `s` names; `Others` for any text that names none.
    pub fn from_text(s: &str) -> (r: MobileVendor)
        ensures
            r == MobileVendor::parse(s@),
    {
        let l = fold_str(s);
        if chars_equal(&l, "10010 联通") || chars_equal(&l, "10010") || chars_equal(&l, "unicom") {
            MobileVendor::Unicom
        } else if chars_equal(&l, "10000 电信") || chars_equal(&l, "10000") || chars_equal(
            &l,
            "telecom",
        ) {
            MobileVendor::Telecom
        } else if chars_equal(&l, "10086 移动") || chars_equal(&l, "10086") || chars_equal(
            &l,
            "mobile",
        ) {
            MobileVendor::Mobile
        } else if chars_equal(&l, "10099 广电") || chars_equal(&l, "10099") || chars_equal(
            &l,
            "cbn",
        ) {
            MobileVendor::Cbn
        } else {
            MobileVendor::Others
        }
    }
}

impl From<String> for MobileVendor {
    fn from(v: String) -> (r: MobileVendor) {
        MobileVendor::from_text(v.as_str())
    }
}

impl vstd::std_specs::convert::FromSpecImpl<String> for MobileVendor {
    open spec fn obeys_from_spec() -> bool {
        true
    }

    open spec fn from_spec(v: String) -> MobileVendor {
        MobileVendor::parse(v@)
    }
}

/// Reading back the canonical text of a kind gives the same kind.
pub proof fn lemma_phone_type_round_trip(v: PhoneType)
    ensures
        PhoneType::parse(v.text()) == v,
{
    reveal_strlit("TEL");
    reveal_strlit("MOBILE");
    reveal_strlit("IDD");
    reveal_strlit("SERVICE");
    reveal_strlit("OTHERS");
    reveal_strlit("tel");
    reveal_strlit("mobile");
    reveal_strlit("idd");
    reveal_strlit("service");
    let l = fold(v.text());
    assert(l.len() == v.text().len());
    match v {
        PhoneType::Tel => assert(l =~= "tel"@),
        PhoneType::Mobile => {
            assert(l =~= "mobile"@);
            assert(l != "tel"@);
        },
        PhoneType::Idd => {
            assert(l =~= "idd"@);
            assert(l[0] != "tel"@[0]);
            assert(l != "mobile"@);
        },
        PhoneType::Service => {
            assert(l =~= "service"@);
            assert(l != "tel"@);
            assert(l != "mobile"@);
            assert(l != "idd"@);
        },
        PhoneType::Others => {
            assert(l[0] == 'o');
            assert(l[0] != "tel"@[0]);
            assert(l[0] != "mobile"@[0]);
            assert(l[0] != "idd"@[0]);
            assert(l[0] != "service"@[0]);
        },
    }
}

/// Reading back the canonical text of a carrier gives the same carrier.
pub proof fn lemma_mobile_vendor_round_trip(v: MobileVendor)
    ensures
        MobileVendor::parse(v.text()) == v,
{
    reveal_strlit("10010 联通");
    reveal_strlit("10010");
    reveal_strlit("unicom");
    reveal_strlit("10000 电信");
    reveal_strlit("10000");
    reveal_strlit("telecom");
    reveal_strlit("10086 移动");
    reveal_strlit("10086");
    reveal_strlit("mobile");
    reveal_strlit("10099 广电");
    reveal_strlit("10099");
    reveal_strlit("cbn");
    reveal_strlit("unknown 未知");
    let t = v.text();
    let l = fold(t);
    assert(l =~= t);
    match v {
        MobileVendor::Others => {
            assert(l[0] == 'u');
            assert(l.len() == 10);
        },
        MobileVendor::Unicom => {},
        MobileVendor::Telecom => {
            assert(l[3] == '0');
        },
        MobileVendor::Mobile => {
            assert(l[3] == '8');
        },
        MobileVendor::Cbn => {
            assert(l[3] == '9');
        },
    }
}

/// The parsers ignore ASCII case: texts that agree once folded to lower case
/// name the same kind and the same carrier, and each text names what its
/// lower-case form names.
pub proof fn lemma_parse_ignores_case(s: Seq<char>, t: Seq<char>)
    requires
        fold(s) == fold(t),
    ensures
        PhoneType::parse(s) == PhoneType::parse(t),
        MobileVendor::parse(s) == MobileVendor::parse(t),
        PhoneType::parse(s) == PhoneType::parse(fold(s)),
        MobileVendor::parse(s) == MobileVendor::parse(fold(s)),
{
    crate::text::lemma_fold_idempotent(s);
}

} // verus!
