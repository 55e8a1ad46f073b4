//! The configuration document: a fixed, closed set of required fields.
//!
//! A document holds exactly three sections — `bundle`, `kit`, `wifi` — and
//! exactly the fields listed below, no more and no fewer, at every level:
//!
//! | path           | type        |
//! |----------------|-------------|
//! | `bundle.version` | string    |
//! | `kit.name`       | string    |
//! | `kit.version`    | kit version string |
//! | `wifi.ssid`      | string    |
//! | `wifi.psk`       | string    |
//! | `wifi.enabled`   | boolean   |
//! | `wifi.region`    | string    |
//!
//! Validation is one pass and all-or-nothing.  Within a table, an unknown
//! field is reported before a missing one; sections are checked in the order
//! `bundle`, `kit`, `wifi`, the document's own keys first; within a section,
//! fields are checked in the order of the table above.  A `kit.version`
//! value that is a string but fails the version grammar is reported as a
//! type mismatch at `kit.version`.

use vstd::prelude::*;
use crate::doc::DocNode;
use crate::doc::doc_view;
use crate::doc::DocValue;
use crate::doc::doc_encodable;
use crate::doc::entries_view;
use crate::doc::first_unknown_key;
use crate::doc::lemma_entries_view;
use crate::doc::lemma_no_unknown_key;
use crate::doc::scalar_entries_only;
use crate::doc::tbl_find;
use crate::doc::tbl_get;
use crate::doc::tbl_has;
use crate::doc::unknown_key_from;
use crate::kit_version::KitVersion;
use crate::kit_version::KitVersionModel;
use crate::kit_version::spec_format;
use crate::kit_version::spec_parse;
use crate::toml_codec::toml_decode;
use crate::toml_codec::toml_doc_of;
use crate::toml_codec::toml_encode;
use crate::toml_codec::toml_text_of;

verus! {

// ---------------------------------------------------------------------------
// The typed document
// ---------------------------------------------------------------------------

/// The `bundle` section: a single free-form version string.
#[derive(Clone, Debug, PartialEq)]
pub struct BundleVersionSection {
    pub version: String,
}

/// The `kit` section: a name and a kit version.
#[derive(Clone, Debug, PartialEq)]
pub struct KitInformationSection {
    pub name: String,
    pub version: KitVersion,
}

/// The `wifi` section: credentials, an enabled flag, and a region code.
#[derive(Clone, Debug, PartialEq)]
pub struct WiFiInformationSection {
    pub ssid: String,
    pub psk: String,
    pub enabled: bool,
    pub region: String,
}

/// The whole document: its three required sections.
#[derive(Clone, Debug, PartialEq)]
pub struct BundleInformationSchema {
    pub bundle: BundleVersionSection,
    pub kit: KitInformationSection,
    pub wifi: WiFiInformationSection,
}

/// Model of `BundleVersionSection`.
#[verifier::ext_equal]
pub ghost struct BundleVersionSectionModel {
    pub version: Seq<char>,
}

/// Model of `KitInformationSection`.
#[verifier::ext_equal]
pub ghost struct KitInformationSectionModel {
    pub name: Seq<char>,
    pub version: KitVersionModel,
}

/// Model of `WiFiInformationSection`.
#[verifier::ext_equal]
pub ghost struct WiFiInformationSectionModel {
    pub ssid: Seq<char>,
    pub psk: Seq<char>,
    pub enabled: bool,
    pub region: Seq<char>,
}

/// Model of `BundleInformationSchema`.
#[verifier::ext_equal]
pub ghost struct BundleInformationSchemaModel {
    pub bundle: BundleVersionSectionModel,
    pub kit: KitInformationSectionModel,
    pub wifi: WiFiInformationSectionModel,
}

impl View for BundleVersionSection {
    type V = BundleVersionSectionModel;

    open spec fn view(&self) -> BundleVersionSectionModel {
        BundleVersionSectionModel { version: self.version@ }
    }
}

impl View for KitInformationSection {
    type V = KitInformationSectionModel;

    open spec fn view(&self) -> KitInformationSectionModel {
        KitInformationSectionModel { name: self.name@, version: self.version@ }
    }
}

impl View for WiFiInformationSection {
    type V = WiFiInformationSectionModel;

    open spec fn view(&self) -> WiFiInformationSectionModel {
        WiFiInformationSectionModel {
            ssid: self.ssid@,
            psk: self.psk@,
            enabled: self.enabled,
            region: self.region@,
        }
    }
}

impl View for BundleInformationSchema {
    type V = BundleInformationSchemaModel;

    open spec fn view(&self) -> BundleInformationSchemaModel {
        BundleInformationSchemaModel { bundle: self.bundle@, kit: self.kit@, wifi: self.wifi@ }
    }
}

// ---------------------------------------------------------------------------
// Errors
// ---------------------------------------------------------------------------

/// How a document deviated from the schema.
#[derive(Clone, Copy, Debug, PartialEq, Eq, Structural)]
pub enum SchemaErrorKind {
    MissingField,
    UnknownField,
    TypeMismatch,
}

/// A schema violation, tagged with the offending field's path.
#[derive(Clone, Debug, PartialEq)]
pub struct SchemaError {
    pub kind: SchemaErrorKind,
    pub path: String,
}

/// Model of `SchemaError`.
#[verifier::ext_equal]
pub ghost struct SchemaErrorModel {
    pub kind: SchemaErrorKind,
    pub path: Seq<char>,
}

impl View for SchemaError {
    type V = SchemaErrorModel;

    open spec fn view(&self) -> SchemaErrorModel {
        SchemaErrorModel { kind: self.kind, path: self.path@ }
    }
}

/// Why a document text failed to load: it is not well-formed structured
/// text (with the decoder's message), or it violates the schema.
#[derive(Clone, Debug, PartialEq)]
pub enum LoadError {
    DocumentSyntax(String),
    Schema(SchemaError),
}

/// Model of `LoadError`.
#[verifier::ext_equal]
pub ghost enum LoadErrorModel {
    DocumentSyntax(Seq<char>),
    Schema(SchemaErrorModel),
}

impl View for LoadError {
    type V = LoadErrorModel;

    open spec fn view(&self) -> LoadErrorModel {
        match self {
            LoadError::DocumentSyntax(m) => LoadErrorModel::DocumentSyntax(m@),
            LoadError::Schema(e) => LoadErrorModel::Schema(e@),
        }
    }
}

// ---------------------------------------------------------------------------
// Validation, as a specification
// ---------------------------------------------------------------------------

/// Validation of the `bundle` section: only `version` may and must appear,
/// and it must be a string.
pub open spec fn spec_check_bundle(node: DocNode) -> Result<
    BundleVersionSectionModel,
    SchemaErrorModel,
> {
    match node {
        DocNode::Table(t) => {
            match first_unknown_key(t, set!["version"@]) {
                Option::Some(k) => Result::Err(SchemaErrorModel {
                    kind: SchemaErrorKind::UnknownField,
                    path: "bundle."@ + k,
                }),
                Option::None =>
            if !tbl_has(t, "version"@) {
                Result::Err(SchemaErrorModel {
                    kind: SchemaErrorKind::MissingField,
                    path: "bundle.version"@,
                })
            } else {
                match tbl_get(t, "version"@) {
                    DocNode::Str(s) => Result::Ok(BundleVersionSectionModel { version: s }),
                    _ => Result::Err(SchemaErrorModel {
                        kind: SchemaErrorKind::TypeMismatch,
                        path: "bundle.version"@,
                    }),
                }
            }
            }
        },
        _ => Result::Err(SchemaErrorModel {
            kind: SchemaErrorKind::TypeMismatch,
            path: "bundle"@,
        }),
    }
}

/// Validation of the `kit` section: only `name` and `version` may and must
/// appear; `name` must be a string and `version` a string that satisfies the
/// version grammar.  A grammar or width failure there is a type mismatch at
/// `kit.version`.
pub open spec fn spec_check_kit(node: DocNode) -> Result<
    KitInformationSectionModel,
    SchemaErrorModel,
> {
    match node {
        DocNode::Table(t) => {
            match first_unknown_key(t, set!["name"@, "version"@]) {
                Option::Some(k) => Result::Err(SchemaErrorModel {
                    kind: SchemaErrorKind::UnknownField,
                    path: "kit."@ + k,
                }),
                Option::None =>
            if !tbl_has(t, "name"@) {
                Result::Err(SchemaErrorModel {
                    kind: SchemaErrorKind::MissingField,
                    path: "kit.name"@,
                })
            } else if !tbl_has(t, "version"@) {
                Result::Err(SchemaErrorModel {
                    kind: SchemaErrorKind::MissingField,
                    path: "kit.version"@,
                })
            } else {
                match (tbl_get(t, "name"@), tbl_get(t, "version"@)) {
                    (DocNode::Str(name), DocNode::Str(vs)) => match spec_parse(vs) {
                        Result::Ok(v) => Result::Ok(KitInformationSectionModel {
                            name: name,
                            version: v,
                        }),
                        Result::Err(_) => Result::Err(SchemaErrorModel {
                            kind: SchemaErrorKind::TypeMismatch,
                            path: "kit.version"@,
                        }),
                    },
                    (DocNode::Str(_), _) => Result::Err(SchemaErrorModel {
                        kind: SchemaErrorKind::TypeMismatch,
                        path: "kit.version"@,
                    }),
                    _ => Result::Err(SchemaErrorModel {
                        kind: SchemaErrorKind::TypeMismatch,
                        path: "kit.name"@,
                    }),
                }
            }
            }
        },
        _ => Result::Err(SchemaErrorModel { kind: SchemaErrorKind::TypeMismatch, path: "kit"@ }),
    }
}

/// Validation of the `wifi` section: only `ssid`, `psk`, `enabled` and
/// `region` may and must appear; `enabled` must be a boolean and the rest
/// strings.
pub open spec fn spec_check_wifi(node: DocNode) -> Result<
    WiFiInformationSectionModel,
    SchemaErrorModel,
> {
    match node {
        DocNode::Table(t) => {
            match first_unknown_key(t, set!["ssid"@, "psk"@, "enabled"@, "region"@]) {
                Option::Some(k) => Result::Err(SchemaErrorModel {
                    kind: SchemaErrorKind::UnknownField,
                    path: "wifi."@ + k,
                }),
                Option::None =>
            if !tbl_has(t, "ssid"@) {
                Result::Err(SchemaErrorModel {
                    kind: SchemaErrorKind::MissingField,
                    path: "wifi.ssid"@,
                })
            } else if !tbl_has(t, "psk"@) {
                Result::Err(SchemaErrorModel {
                    kind: SchemaErrorKind::MissingField,
                    path: "wifi.psk"@,
                })
            } else if !tbl_has(t, "enabled"@) {
                Result::Err(SchemaErrorModel {
                    kind: SchemaErrorKind::MissingField,
                    path: "wifi.enabled"@,
                })
            } else if !tbl_has(t, "region"@) {
                Result::Err(SchemaErrorModel {
                    kind: SchemaErrorKind::MissingField,
                    path: "wifi.region"@,
                })
            } else if !(tbl_get(t, "ssid"@) is Str) {
                Result::Err(SchemaErrorModel {
                    kind: SchemaErrorKind::TypeMismatch,
                    path: "wifi.ssid"@,
                })
            } else if !(tbl_get(t, "psk"@) is Str) {
                Result::Err(SchemaErrorModel {
                    kind: SchemaErrorKind::TypeMismatch,
                    path: "wifi.psk"@,
                })
            } else if !(tbl_get(t, "enabled"@) is Bool) {
                Result::Err(SchemaErrorModel {
                    kind: SchemaErrorKind::TypeMismatch,
                    path: "wifi.enabled"@,
                })
            } else if !(tbl_get(t, "region"@) is Str) {
                Result::Err(SchemaErrorModel {
                    kind: SchemaErrorKind::TypeMismatch,
                    path: "wifi.region"@,
                })
            } else {
                Result::Ok(WiFiInformationSectionModel {
                    ssid: tbl_get(t, "ssid"@)->Str_0,
                    psk: tbl_get(t, "psk"@)->Str_0,
                    enabled: tbl_get(t, "enabled"@)->Bool_0,
                    region: tbl_get(t, "region"@)->Str_0,
                })
            }
            }
        },
        _ => Result::Err(SchemaErrorModel { kind: SchemaErrorKind::TypeMismatch, path: "wifi"@ }),
    }
}

/// Validation of a whole document: a table with exactly the sections
/// `bundle`, `kit` and `wifi`, each valid; the document's own keys are
/// checked first, then the sections in that order.
pub open spec fn spec_check_doc(d: DocNode) -> Result<
    BundleInformationSchemaModel,
    SchemaErrorModel,
> {
    match d {
        DocNode::Table(t) => {
            match first_unknown_key(t, set!["bundle"@, "kit"@, "wifi"@]) {
                Option::Some(k) => Result::Err(SchemaErrorModel {
                    kind: SchemaErrorKind::UnknownField,
                    path: k,
                }),
                Option::None =>
            if !tbl_has(t, "bundle"@) {
                Result::Err(SchemaErrorModel {
                    kind: SchemaErrorKind::MissingField,
                    path: "bundle"@,
                })
            } else if !tbl_has(t, "kit"@) {
                Result::Err(SchemaErrorModel { kind: SchemaErrorKind::MissingField, path: "kit"@ })
            } else if !tbl_has(t, "wifi"@) {
                Result::Err(SchemaErrorModel { kind: SchemaErrorKind::MissingField, path: "wifi"@ })
            } else {
                match spec_check_bundle(tbl_get(t, "bundle"@)) {
                    Result::Err(e) => Result::Err(e),
                    Result::Ok(bundle) => match spec_check_kit(tbl_get(t, "kit"@)) {
                        Result::Err(e) => Result::Err(e),
                        Result::Ok(kit) => match spec_check_wifi(tbl_get(t, "wifi"@)) {
                            Result::Err(e) => Result::Err(e),
                            Result::Ok(wifi) => Result::Ok(BundleInformationSchemaModel {
                                bundle,
                                kit,
                                wifi,
                            }),
                        },
                    },
                }
            }
            }
        },
        _ => Result::Err(SchemaErrorModel { kind: SchemaErrorKind::TypeMismatch, path: ""@ }),
    }
}

// ---------------------------------------------------------------------------
// Validation, executed
// ---------------------------------------------------------------------------

/// Check the `bundle` section against its closed field set.
fn check_bundle_section(v: &DocValue) -> (r: Result<BundleVersionSection, SchemaError>)
    ensures
        match r {
            Result::Ok(b) => spec_check_bundle(v@) == Result::<BundleVersionSectionModel,
                SchemaErrorModel>::Ok(b@),
            Result::Err(e) => spec_check_bundle(v@) == Result::<BundleVersionSectionModel,
                SchemaErrorModel>::Err(e@),
        },
{
    match v {
        DocValue::Table(entries) => {
            let ghost t = entries_view(entries@);
            proof {
                lemma_entries_view(entries@);
            }
            let version_key = String::from_str("version");
            let ghost allowed = set!["version"@];
            let mut i: usize = 0;
            while i < entries.len()
                invariant
                    0 <= i <= entries.len(),
                    version_key@ == "version"@,
                    allowed == set!["version"@],
                    v@ == DocNode::Table(t),
                    t == entries_view(entries@),
                    t.len() == entries@.len(),
                    forall|j: int| 0 <= j < entries@.len() ==> #[trigger] t[j] == (
                    entries@[j].0@, doc_view(entries@[j].1)),
                    unknown_key_from(t, allowed, 0) == unknown_key_from(t, allowed, i as int),
                decreases entries.len() - i,
            {
                if !(entries[i].0 == version_key) {
                    let mut path = String::from_str("bundle.");
                    path.append(entries[i].0.as_str());
                    proof {
                        assert(!allowed.contains(t[i as int].0));
                        assert(unknown_key_from(t, allowed, i as int) == Option::Some(
                            t[i as int].0,
                        ));
                    }
                    return Result::Err(SchemaError { kind: SchemaErrorKind::UnknownField, path });
                }
                i = i + 1;
            }
            proof {
                assert(first_unknown_key(t, allowed) is None);
            }
            match tbl_find(entries, &version_key) {
                Option::None => Result::Err(SchemaError {
                    kind: SchemaErrorKind::MissingField,
                    path: String::from_str("bundle.version"),
                }),
                Option::Some(val) => match val {
                    DocValue::Str(s) => Result::Ok(BundleVersionSection { version: s.clone() }),
                    _ => Result::Err(SchemaError {
                        kind: SchemaErrorKind::TypeMismatch,
                        path: String::from_str("bundle.version"),
                    }),
                },
            }
        },
        _ => Result::Err(SchemaError {
            kind: SchemaErrorKind::TypeMismatch,
            path: String::from_str("bundle"),
        }),
    }
}

/// Check the `kit` section against its closed field set, parsing the
/// embedded version string.
fn check_kit_section(v: &DocValue) -> (r: Result<KitInformationSection, SchemaError>)
    ensures
        match r {
            Result::Ok(k) => spec_check_kit(v@) == Result::<KitInformationSectionModel,
                SchemaErrorModel>::Ok(k@),
            Result::Err(e) => spec_check_kit(v@) == Result::<KitInformationSectionModel,
                SchemaErrorModel>::Err(e@),
        },
{
    match v {
        DocValue::Table(entries) => {
            let ghost t = entries_view(entries@);
            proof {
                lemma_entries_view(entries@);
            }
            let name_key = String::from_str("name");
            let version_key = String::from_str("version");
            let ghost allowed = set!["name"@, "version"@];
            let mut i: usize = 0;
            while i < entries.len()
                invariant
                    0 <= i <= entries.len(),
                    name_key@ == "name"@,
                    version_key@ == "version"@,
                    allowed == set!["name"@, "version"@],
                    v@ == DocNode::Table(t),
                    t == entries_view(entries@),
                    t.len() == entries@.len(),
                    forall|j: int| 0 <= j < entries@.len() ==> #[trigger] t[j] == (
                    entries@[j].0@, doc_view(entries@[j].1)),
                    unknown_key_from(t, allowed, 0) == unknown_key_from(t, allowed, i as int),
                decreases entries.len() - i,
            {
                if !(entries[i].0 == name_key) && !(entries[i].0 == version_key) {
                    let mut path = String::from_str("kit.");
                    path.append(entries[i].0.as_str());
                    proof {
                        assert(!allowed.contains(t[i as int].0));
                        assert(unknown_key_from(t, allowed, i as int) == Option::Some(
                            t[i as int].0,
                        ));
                    }
                    return Result::Err(SchemaError { kind: SchemaErrorKind::UnknownField, path });
                }
                i = i + 1;
            }
            proof {
                assert(first_unknown_key(t, allowed) is None);
            }
            let nval = match tbl_find(entries, &name_key) {
                Option::None => {
                    return Result::Err(SchemaError {
                        kind: SchemaErrorKind::MissingField,
                        path: String::from_str("kit.name"),
                    });
                },
                Option::Some(x) => x,
            };
            let vval = match tbl_find(entries, &version_key) {
                Option::None => {
                    return Result::Err(SchemaError {
                        kind: SchemaErrorKind::MissingField,
                        path: String::from_str("kit.version"),
                    });
                },
                Option::Some(x) => x,
            };
            let name = match nval {
                DocValue::Str(s) => s,
                _ => {
                    return Result::Err(SchemaError {
                        kind: SchemaErrorKind::TypeMismatch,
                        path: String::from_str("kit.name"),
                    });
                },
            };
            let vs = match vval {
                DocValue::Str(s) => s,
                _ => {
                    return Result::Err(SchemaError {
                        kind: SchemaErrorKind::TypeMismatch,
                        path: String::from_str("kit.version"),
                    });
                },
            };
            match KitVersion::try_from(vs.as_str()) {
                Result::Ok(kv) => Result::Ok(KitInformationSection {
                    name: name.clone(),
                    version: kv,
                }),
                Result::Err(_) => Result::Err(SchemaError {
                    kind: SchemaErrorKind::TypeMismatch,
                    path: String::from_str("kit.version"),
                }),
            }
        },
        _ => Result::Err(SchemaError {
            kind: SchemaErrorKind::TypeMismatch,
            path: String::from_str("kit"),
        }),
    }
}

/// Check the `wifi` section against its closed field set.
fn check_wifi_section(v: &DocValue) -> (r: Result<WiFiInformationSection, SchemaError>)
    ensures
        match r {
            Result::Ok(w) => spec_check_wifi(v@) == Result::<WiFiInformationSectionModel,
                SchemaErrorModel>::Ok(w@),
            Result::Err(e) => spec_check_wifi(v@) == Result::<WiFiInformationSectionModel,
                SchemaErrorModel>::Err(e@),
        },
{
    match v {
        DocValue::Table(entries) => {
            let ghost t = entries_view(entries@);
            proof {
                lemma_entries_view(entries@);
            }
            let ssid_key = String::from_str("ssid");
            let psk_key = String::from_str("psk");
            let enabled_key = String::from_str("enabled");
            let region_key = String::from_str("region");
            let ghost allowed = set!["ssid"@, "psk"@, "enabled"@, "region"@];
            let mut i: usize = 0;
            while i < entries.len()
                invariant
                    0 <= i <= entries.len(),
                    ssid_key@ == "ssid"@,
                    psk_key@ == "psk"@,
                    enabled_key@ == "enabled"@,
                    region_key@ == "region"@,
                    allowed == set!["ssid"@, "psk"@, "enabled"@, "region"@],
                    v@ == DocNode::Table(t),
                    t == entries_view(entries@),
                    t.len() == entries@.len(),
                    forall|j: int| 0 <= j < entries@.len() ==> #[trigger] t[j] == (
                    entries@[j].0@, doc_view(entries@[j].1)),
                    unknown_key_from(t, allowed, 0) == unknown_key_from(t, allowed, i as int),
                decreases entries.len() - i,
            {
                if !(entries[i].0 == ssid_key) && !(entries[i].0 == psk_key) && !(entries[i].0
                    == enabled_key) && !(entries[i].0 == region_key) {
                    let mut path = String::from_str("wifi.");
                    path.append(entries[i].0.as_str());
                    proof {
                        assert(!allowed.contains(t[i as int].0));
                        assert(unknown_key_from(t, allowed, i as int) == Option::Some(
                            t[i as int].0,
                        ));
                    }
                    return Result::Err(SchemaError { kind: SchemaErrorKind::UnknownField, path });
                }
                i = i + 1;
            }
            proof {
                assert(first_unknown_key(t, allowed) is None);
            }
            let ssid_v = match tbl_find(entries, &ssid_key) {
                Option::None => {
                    return Result::Err(SchemaError {
                        kind: SchemaErrorKind::MissingField,
                        path: String::from_str("wifi.ssid"),
                    });
                },
                Option::Some(x) => x,
            };
            let psk_v = match tbl_find(entries, &psk_key) {
                Option::None => {
                    return Result::Err(SchemaError {
                        kind: SchemaErrorKind::MissingField,
                        path: String::from_str("wifi.psk"),
                    });
                },
                Option::Some(x) => x,
            };
            let enabled_v = match tbl_find(entries, &enabled_key) {
                Option::None => {
                    return Result::Err(SchemaError {
                        kind: SchemaErrorKind::MissingField,
                        path: String::from_str("wifi.enabled"),
                    });
                },
                Option::Some(x) => x,
            };
            let region_v = match tbl_find(entries, &region_key) {
                Option::None => {
                    return Result::Err(SchemaError {
                        kind: SchemaErrorKind::MissingField,
                        path: String::from_str("wifi.region"),
                    });
                },
                Option::Some(x) => x,
            };
            let ssid = match ssid_v {
                DocValue::Str(s) => s,
                _ => {
                    return Result::Err(SchemaError {
                        kind: SchemaErrorKind::TypeMismatch,
                        path: String::from_str("wifi.ssid"),
                    });
                },
            };
            let psk = match psk_v {
                DocValue::Str(s) => s,
                _ => {
                    return Result::Err(SchemaError {
                        kind: SchemaErrorKind::TypeMismatch,
                        path: String::from_str("wifi.psk"),
                    });
                },
            };
            let enabled = match enabled_v {
                DocValue::Bool(b) => *b,
                _ => {
                    return Result::Err(SchemaError {
                        kind: SchemaErrorKind::TypeMismatch,
                        path: String::from_str("wifi.enabled"),
                    });
                },
            };
            let region = match region_v {
                DocValue::Str(s) => s,
                _ => {
                    return Result::Err(SchemaError {
                        kind: SchemaErrorKind::TypeMismatch,
                        path: String::from_str("wifi.region"),
                    });
                },
            };
            Result::Ok(WiFiInformationSection {
                ssid: ssid.clone(),
                psk: psk.clone(),
                enabled,
                region: region.clone(),
            })
        },
        _ => Result::Err(SchemaError {
            kind: SchemaErrorKind::TypeMismatch,
            path: String::from_str("wifi"),
        }),
    }
}

impl BundleInformationSchema {
    /// Validate a decoded document against the schema: exactly the three
    /// sections and seven fields, no more and no fewer, or the first
    /// violation in checking order.
    pub fn from_doc(d: &DocValue) -> (r: Result<BundleInformationSchema, SchemaError>)
        ensures
            match r {
                Result::Ok(b) => spec_check_doc(d@) == Result::<BundleInformationSchemaModel,
                    SchemaErrorModel>::Ok(b@),
                Result::Err(e) => spec_check_doc(d@) == Result::<BundleInformationSchemaModel,
                    SchemaErrorModel>::Err(e@),
            },
    {
        match d {
            DocValue::Table(entries) => {
                let ghost t = entries_view(entries@);
                proof {
                    lemma_entries_view(entries@);
                }
                let bundle_key = String::from_str("bundle");
                let kit_key = String::from_str("kit");
                let wifi_key = String::from_str("wifi");
                let ghost allowed = set!["bundle"@, "kit"@, "wifi"@];
                let mut i: usize = 0;
                while i < entries.len()
                    invariant
                        0 <= i <= entries.len(),
                        bundle_key@ == "bundle"@,
                        kit_key@ == "kit"@,
                        wifi_key@ == "wifi"@,
                        allowed == set!["bundle"@, "kit"@, "wifi"@],
                        d@ == DocNode::Table(t),
                        t == entries_view(entries@),
                        t.len() == entries@.len(),
                        forall|j: int| 0 <= j < entries@.len() ==> #[trigger] t[j] == (
                        entries@[j].0@, doc_view(entries@[j].1)),
                        unknown_key_from(t, allowed, 0) == unknown_key_from(t, allowed, i as int),
                    decreases entries.len() - i,
                {
                    if !(entries[i].0 == bundle_key) && !(entries[i].0 == kit_key) && !(
                    entries[i].0 == wifi_key) {
                        let path = entries[i].0.clone();
                        proof {
                            assert(!allowed.contains(t[i as int].0));
                            assert(unknown_key_from(t, allowed, i as int) == Option::Some(
                                t[i as int].0,
                            ));
                        }
                        return Result::Err(SchemaError {
                            kind: SchemaErrorKind::UnknownField,
                            path,
                        });
                    }
                    i = i + 1;
                }
                proof {
                    assert(first_unknown_key(t, allowed) is None);
                }
                let bundle_v = match tbl_find(entries, &bundle_key) {
                    Option::None => {
                        return Result::Err(SchemaError {
                            kind: SchemaErrorKind::MissingField,
                            path: String::from_str("bundle"),
                        });
                    },
                    Option::Some(x) => x,
                };
                let kit_v = match tbl_find(entries, &kit_key) {
                    Option::None => {
                        return Result::Err(SchemaError {
                            kind: SchemaErrorKind::MissingField,
                            path: String::from_str("kit"),
                        });
                    },
                    Option::Some(x) => x,
                };
                let wifi_v = match tbl_find(entries, &wifi_key) {
                    Option::None => {
                        return Result::Err(SchemaError {
                            kind: SchemaErrorKind::MissingField,
                            path: String::from_str("wifi"),
                        });
                    },
                    Option::Some(x) => x,
                };
                let bundle = match check_bundle_section(bundle_v) {
                    Result::Ok(b) => b,
                    Result::Err(e) => {
                        return Result::Err(e);
                    },
                };
                let kit = match check_kit_section(kit_v) {
                    Result::Ok(k) => k,
                    Result::Err(e) => {
                        return Result::Err(e);
                    },
                };
                let wifi = match check_wifi_section(wifi_v) {
                    Result::Ok(w) => w,
                    Result::Err(e) => {
                        return Result::Err(e);
                    },
                };
                Result::Ok(BundleInformationSchema { bundle, kit, wifi })
            },
            _ => {
                proof {
                    reveal_strlit("");
                    assert(""@ =~= Seq::<char>::empty());
                }
                Result::Err(SchemaError {
                    kind: SchemaErrorKind::TypeMismatch,
                    path: String::new(),
                })
            },
        }
    }

    /// Decode a document text with the external TOML collaborator, then
    /// validate it.  The text is rejected either as malformed structured
    /// text, with the decoder's message, or with the schema's first
    /// violation.
    pub fn from_toml_str(text: &str) -> (r: Result<BundleInformationSchema, LoadError>)
        ensures
            match r {
                Result::Ok(b) => toml_doc_of(text@) matches Option::Some(doc)
                    && spec_check_doc(doc) == Result::<BundleInformationSchemaModel,
                    SchemaErrorModel>::Ok(b@),
                Result::Err(e) => match e {
                    LoadError::DocumentSyntax(_) => toml_doc_of(text@) is None,
                    LoadError::Schema(se) => toml_doc_of(text@) matches Option::Some(doc)
                        && spec_check_doc(doc) == Result::<BundleInformationSchemaModel,
                        SchemaErrorModel>::Err(se@),
                },
            },
    {
        match toml_decode(text) {
            Result::Err(m) => Result::Err(LoadError::DocumentSyntax(m)),
            Result::Ok(docval) => match Self::from_doc(&docval) {
                Result::Ok(b) => Result::Ok(b),
                Result::Err(e) => Result::Err(LoadError::Schema(e)),
            },
        }
    }
}

// ---------------------------------------------------------------------------
// The closed world, as a law
// ---------------------------------------------------------------------------

/// The exact shape of an accepted `bundle` section: every key is
/// `version`, which is present and a string.
pub open spec fn bundle_section_shape(n: DocNode) -> bool {
    &&& n matches DocNode::Table(u)
    &&& forall|j: int| 0 <= j < u.len() ==> (#[trigger] u[j]).0 == "version"@
    &&& tbl_has(u, "version"@)
    &&& tbl_get(u, "version"@) is Str
}

/// The exact shape of an accepted `kit` section: every key is `name` or
/// `version`, both present; `name` a string, `version` a string that the
/// version grammar accepts.
pub open spec fn kit_section_shape(n: DocNode) -> bool {
    &&& n matches DocNode::Table(u)
    &&& forall|j: int| 0 <= j < u.len() ==> ((#[trigger] u[j]).0 == "name"@ || u[j].0
        == "version"@)
    &&& tbl_has(u, "name"@)
    &&& tbl_has(u, "version"@)
    &&& tbl_get(u, "name"@) is Str
    &&& tbl_get(u, "version"@) matches DocNode::Str(vs) && spec_parse(vs) is Ok
}

/// The exact shape of an accepted `wifi` section: every key is one of
/// `ssid`, `psk`, `enabled`, `region`, all present; `enabled` a boolean,
/// the rest strings.
pub open spec fn wifi_section_shape(n: DocNode) -> bool {
    &&& n matches DocNode::Table(u)
    &&& forall|j: int| 0 <= j < u.len() ==> ((#[trigger] u[j]).0 == "ssid"@ || u[j].0 == "psk"@
        || u[j].0 == "enabled"@ || u[j].0 == "region"@)
    &&& tbl_has(u, "ssid"@)
    &&& tbl_has(u, "psk"@)
    &&& tbl_has(u, "enabled"@)
    &&& tbl_has(u, "region"@)
    &&& tbl_get(u, "ssid"@) is Str
    &&& tbl_get(u, "psk"@) is Str
    &&& tbl_get(u, "enabled"@) is Bool
    &&& tbl_get(u, "region"@) is Str
}

/// The exact shape of an accepted document: a table whose every key is one
/// of the three sections, all present, each of its section's shape.
pub open spec fn doc_matches_schema(d: DocNode) -> bool {
    &&& d matches DocNode::Table(t)
    &&& forall|j: int| 0 <= j < t.len() ==> ((#[trigger] t[j]).0 == "bundle"@ || t[j].0 == "kit"@
        || t[j].0 == "wifi"@)
    &&& tbl_has(t, "bundle"@)
    &&& tbl_has(t, "kit"@)
    &&& tbl_has(t, "wifi"@)
    &&& bundle_section_shape(tbl_get(t, "bundle"@))
    &&& kit_section_shape(tbl_get(t, "kit"@))
    &&& wifi_section_shape(tbl_get(t, "wifi"@))
}

/// Closed-world law: a document the schema accepts holds exactly the
/// required field set — every key present is a required one, every required
/// field is present with its required type, at every level.  Contrapositive:
/// a document with an unknown field anywhere, a missing field, or a wrongly
/// typed field is rejected.
pub proof fn lemma_accepted_doc_matches_schema(d: DocNode)
    requires
        spec_check_doc(d) is Ok,
    ensures
        doc_matches_schema(d),
{
    let t = d->Table_0;
    lemma_no_unknown_key(t, set!["bundle"@, "kit"@, "wifi"@], 0);
    let bn = tbl_get(t, "bundle"@);
    lemma_no_unknown_key(bn->Table_0, set!["version"@], 0);
    let kn = tbl_get(t, "kit"@);
    lemma_no_unknown_key(kn->Table_0, set!["name"@, "version"@], 0);
    let wn = tbl_get(t, "wifi"@);
    lemma_no_unknown_key(wn->Table_0, set!["ssid"@, "psk"@, "enabled"@, "region"@], 0);
}

// ---------------------------------------------------------------------------
// Serialization
// ---------------------------------------------------------------------------

/// The generic document a typed value serializes to: the three sections
/// with their fields in declaration order, `kit.version` re-encoded through
/// the version grammar's canonical form.
pub open spec fn spec_doc_of(m: BundleInformationSchemaModel) -> DocNode {
    DocNode::Table(
        seq![
            ("bundle"@, DocNode::Table(seq![("version"@, DocNode::Str(m.bundle.version))])),
            ("kit"@, DocNode::Table(seq![
                ("name"@, DocNode::Str(m.kit.name)),
                ("version"@, DocNode::Str(spec_format(m.kit.version))),
            ])),
            ("wifi"@, DocNode::Table(seq![
                ("ssid"@, DocNode::Str(m.wifi.ssid)),
                ("psk"@, DocNode::Str(m.wifi.psk)),
                ("enabled"@, DocNode::Bool(m.wifi.enabled)),
                ("region"@, DocNode::Str(m.wifi.region)),
            ])),
        ],
    )
}

impl BundleInformationSchema {
    /// The generic document this value serializes to.
    pub fn to_doc(&self) -> (r: DocValue)
        ensures
            r@ == spec_doc_of(self@),
            doc_encodable(r@),
    {
        let mut bundle_entries: Vec<(String, DocValue)> = Vec::new();
        bundle_entries.push(
            (String::from_str("version"), DocValue::Str(self.bundle.version.clone())),
        );
        let mut kit_entries: Vec<(String, DocValue)> = Vec::new();
        kit_entries.push((String::from_str("name"), DocValue::Str(self.kit.name.clone())));
        kit_entries.push((String::from_str("version"), DocValue::Str(self.kit.version.to_string())));
        let mut wifi_entries: Vec<(String, DocValue)> = Vec::new();
        wifi_entries.push((String::from_str("ssid"), DocValue::Str(self.wifi.ssid.clone())));
        wifi_entries.push((String::from_str("psk"), DocValue::Str(self.wifi.psk.clone())));
        wifi_entries.push((String::from_str("enabled"), DocValue::Bool(self.wifi.enabled)));
        wifi_entries.push((String::from_str("region"), DocValue::Str(self.wifi.region.clone())));
        let ghost b_ents = bundle_entries@;
        let ghost k_ents = kit_entries@;
        let ghost w_ents = wifi_entries@;
        let mut top: Vec<(String, DocValue)> = Vec::new();
        top.push((String::from_str("bundle"), DocValue::Table(bundle_entries)));
        top.push((String::from_str("kit"), DocValue::Table(kit_entries)));
        top.push((String::from_str("wifi"), DocValue::Table(wifi_entries)));
        let r = DocValue::Table(top);
        proof {
            lemma_entries_view(b_ents);
            lemma_entries_view(k_ents);
            lemma_entries_view(w_ents);
            lemma_entries_view(top@);
            assert(entries_view(b_ents) =~= seq![
                ("version"@, DocNode::Str(self.bundle.version@)),
            ]);
            assert(entries_view(k_ents) =~= seq![
                ("name"@, DocNode::Str(self.kit.name@)),
                ("version"@, DocNode::Str(spec_format(self.kit.version@))),
            ]);
            assert(entries_view(w_ents) =~= seq![
                ("ssid"@, DocNode::Str(self.wifi.ssid@)),
                ("psk"@, DocNode::Str(self.wifi.psk@)),
                ("enabled"@, DocNode::Bool(self.wifi.enabled)),
                ("region"@, DocNode::Str(self.wifi.region@)),
            ]);
            let t = entries_view(top@);
            let lit = seq![
                ("bundle"@, DocNode::Table(seq![
                    ("version"@, DocNode::Str(self.bundle.version@)),
                ])),
                ("kit"@, DocNode::Table(seq![
                    ("name"@, DocNode::Str(self.kit.name@)),
                    ("version"@, DocNode::Str(spec_format(self.kit.version@))),
                ])),
                ("wifi"@, DocNode::Table(seq![
                    ("ssid"@, DocNode::Str(self.wifi.ssid@)),
                    ("psk"@, DocNode::Str(self.wifi.psk@)),
                    ("enabled"@, DocNode::Bool(self.wifi.enabled)),
                    ("region"@, DocNode::Str(self.wifi.region@)),
                ])),
            ];
            assert(spec_doc_of(self@) == DocNode::Table(lit));
            assert(t =~= lit);
            assert(r@ == DocNode::Table(t));
            assert(r@ == spec_doc_of(self@));
            assert(scalar_entries_only(entries_view(b_ents)));
            assert(scalar_entries_only(entries_view(k_ents)));
            assert(scalar_entries_only(entries_view(w_ents)));
            assert(doc_encodable(r@));
        }
        r
    }

    /// Serialize this value with the external TOML collaborator: the
    /// document of `spec_doc_of`, encoded as text.  Not byte-identical to
    /// arbitrary hand-written input, but re-loading the text yields an equal
    /// value.
    pub fn to_string(&self) -> (r: String)
        ensures
            r@ == toml_text_of(spec_doc_of(self@)),
    {
        let doc = self.to_doc();
        toml_encode(&doc)
    }
}

} // verus!
