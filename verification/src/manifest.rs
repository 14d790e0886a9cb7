//! Definition containers produced by parsing a UI description: components,
//! templates, properties, expression specs and the type table, together with
//! the small transformations the code generator applies to them.

use vstd::prelude::*;

use crate::identifiers::escape_seq;
use crate::identifiers::escape_identifier;
use crate::identifiers::replace_seq;
use crate::identifiers::replace_all;
use crate::identifiers::snake_seq;
use crate::identifiers::snake_case_identifier;
use crate::text::str_eq;

verus! {

/// Definition container for an entire cartridge.
pub struct PaxManifest {
    pub components: Vec<(String, ComponentDefinition)>,
    pub main_component_type_id: String,
    pub expression_specs: Option<Vec<(usize, ExpressionSpec)>>,
    pub type_table: TypeTable,
    pub import_paths: Vec<String>,
}

/// One compiled expression: its vtable id, return type and the symbol
/// invocations it needs at runtime.
#[derive(Clone)]
pub struct ExpressionSpec {
    /// Unique id for the vtable entry bound to this expression.
    pub id: usize,
    /// Used to wrap the return type in the types coproduct.
    pub pascalized_return_type: String,
    /// Symbols used in the expression, with the metadata needed to invoke them.
    pub invocations: Vec<ExpressionSpecInvocation>,
    /// Compiled representation of the expression.
    pub output_statement: String,
    /// The source-level input statement.
    pub input_statement: String,
    /// Special handling for iterable repeat sources.
    pub is_repeat_source_iterable_expression: bool,
    /// The coproduct variant of the inner type of an iterable repeat source.
    pub repeat_source_iterable_type_id_escaped: String,
}

impl PartialEq for ExpressionSpec {
    /// Two expression specs are the same expression iff their ids agree.
    fn eq(&self, other: &Self) -> (r: bool) {
        self.id == other.id
    }
}

impl vstd::std_specs::cmp::PartialEqSpecImpl for ExpressionSpec {
    open spec fn obeys_eq_spec() -> bool {
        true
    }

    open spec fn eq_spec(&self, other: &Self) -> bool {
        self.id == other.id
    }
}

/// How one symbol used by an expression is bound at runtime: where on the
/// scope stack it lives and which coproduct variants wrap it.
#[derive(Clone)]
pub struct ExpressionSpecInvocation {
    /// Top-level symbol, stripped of `this`/`self`.
    pub root_identifier: String,
    /// The same identifier escaped into a single valid identifier.
    pub escaped_identifier: String,
    /// Statically known stack offset for traversing repeat scopes.
    pub stack_offset: usize,
    /// Properties-coproduct variant of the containing properties struct.
    pub properties_coproduct_type: String,
    /// Types-coproduct variant used to cast a repeat element.
    pub iterable_type_id_escaped: String,
    /// The root symbol resolves to a numeric primitive.
    pub is_numeric: bool,
    /// The root symbol resolves to a non-numeric primitive.
    pub is_primitive_nonnumeric: bool,
    /// Flags of the property behind the symbol.
    pub property_flags: PropertyDefinitionFlags,
    /// Tail of member accesses for nested symbols.
    pub nested_symbol_tail_literal: String,
    /// The nested symbol, as a whole, resolves to a numeric type.
    pub is_nested_numeric: bool,
}

/// The names of the supported numeric primitive types.
pub open spec fn is_supported_numeric_name(s: Seq<char>) -> bool {
    ||| s == "u8"@
    ||| s == "u16"@
    ||| s == "u32"@
    ||| s == "u64"@
    ||| s == "u128"@
    ||| s == "usize"@
    ||| s == "i8"@
    ||| s == "i16"@
    ||| s == "i32"@
    ||| s == "i64"@
    ||| s == "i128"@
    ||| s == "isize"@
    ||| s == "f64"@
}

/// The names of the supported non-numeric primitive types.
pub open spec fn is_supported_nonnumeric_name(s: Seq<char>) -> bool {
    ||| s == "String"@
    ||| s == "bool"@
}

impl ExpressionSpecInvocation {
    /// Is the named type one of the supported non-numeric primitives?
    pub fn is_primitive_nonnumeric(property_properties_coproduct_type: &str) -> (r: bool)
        ensures
            r == is_supported_nonnumeric_name(property_properties_coproduct_type@),
    {
        let s = property_properties_coproduct_type;
        str_eq(s, "String") || str_eq(s, "bool")
    }

    /// Is the named type one of the supported numeric primitives?
    pub fn is_numeric(property_properties_coproduct_type: &str) -> (r: bool)
        ensures
            r == is_supported_numeric_name(property_properties_coproduct_type@),
    {
        let s = property_properties_coproduct_type;
        str_eq(s, "u8") || str_eq(s, "u16") || str_eq(s, "u32") || str_eq(s, "u64") || str_eq(
            s,
            "u128",
        ) || str_eq(s, "usize") || str_eq(s, "i8") || str_eq(s, "i16") || str_eq(s, "i32")
            || str_eq(s, "i64") || str_eq(s, "i128") || str_eq(s, "isize") || str_eq(s, "f64")
    }
}

/// Container for an entire component definition: template, settings, event
/// bindings, property definitions and reflection metadata.
pub struct ComponentDefinition {
    pub type_id: String,
    pub type_id_escaped: String,
    pub is_main_component: bool,
    pub is_primitive: bool,
    /// A struct decorated for use as a property type, with no template.
    pub is_struct_only_component: bool,
    pub pascal_identifier: String,
    pub module_location: String,
    /// For primitives, the import path of the instance struct.
    pub primitive_instance_import_path: Option<String>,
    pub template: Option<Vec<TemplateNodeDefinition>>,
    pub settings: Option<Vec<SettingsSelectorBlockDefinition>>,
    pub events: Option<Vec<EventDefinition>>,
}

impl ComponentDefinition {
    /// The component's type id flattened into a snake-case identifier.
    pub fn get_snake_case_id(&self) -> (r: String)
        ensures
            r@ == snake_seq(self.type_id@),
    {
        snake_case_identifier(self.type_id.as_str())
    }

    /// The property definitions registered for this component's type.
    pub fn get_property_definitions<'a>(&self, tt: &'a TypeTable) -> (r: &'a Vec<
        PropertyDefinition,
    >)
        requires
            tt.spec_lookup(self.type_id@) is Some,
        ensures
            r@ == tt.spec_lookup(self.type_id@)->Some_0.property_definitions@,
    {
        let td = tt.get(self.type_id.as_str()).unwrap();
        &td.property_definitions
    }
}

/// One node of a component template, for example one element declaration.
pub struct TemplateNodeDefinition {
    /// Component-unique id; id 0 is the implicit root of a template.
    pub id: usize,
    /// Ids of the child template nodes, in declared order.
    pub child_ids: Vec<usize>,
    /// Unique string id of the node's component or primitive type.
    pub type_id: String,
    /// Control-flow attributes, iff this node is a control-flow node.
    pub control_flow_settings: Option<ControlFlowSettingsDefinition>,
    /// Inline attribute settings, iff this node is not a control-flow node.
    pub settings: Option<Vec<(String, ValueDefinition)>>,
    /// The declared name, for example `Rectangle`.
    pub pascal_identifier: String,
}

/// Table from type id to type definition.
///
/// Entries are kept as an association list; a newly inserted entry is placed
/// in front and shadows any older entry with the same key.
pub struct TypeTable {
    pub entries: Vec<(String, TypeDefinition)>,
}

/// The first entry of `s` whose key reads `k`, scanning front to back.
pub open spec fn table_lookup(s: Seq<(String, TypeDefinition)>, k: Seq<char>) -> Option<
    TypeDefinition,
>
    decreases s.len(),
{
    if s.len() == 0 {
        None
    } else if s[0].0@ == k {
        Some(s[0].1)
    } else {
        table_lookup(s.skip(1), k)
    }
}

proof fn lemma_table_lookup_found(s: Seq<(String, TypeDefinition)>, k: Seq<char>, i: int)
    requires
        0 <= i < s.len(),
        s[i].0@ == k,
        forall|j: int| 0 <= j < i ==> s[j].0@ != k,
    ensures
        table_lookup(s, k) == Some(s[i].1),
    decreases i,
{
    if i == 0 {
    } else {
        assert(s.skip(1)[i - 1] == s[i]);
        assert(forall|j: int| 0 <= j < i - 1 ==> s.skip(1)[j] == s[j + 1]);
        lemma_table_lookup_found(s.skip(1), k, i - 1);
    }
}

proof fn lemma_table_lookup_none(s: Seq<(String, TypeDefinition)>, k: Seq<char>)
    requires
        forall|j: int| 0 <= j < s.len() ==> s[j].0@ != k,
    ensures
        table_lookup(s, k) is None,
    decreases s.len(),
{
    if s.len() > 0 {
        assert(forall|j: int| 0 <= j < s.skip(1).len() ==> s.skip(1)[j] == s[j + 1]);
        lemma_table_lookup_none(s.skip(1), k);
    }
}

impl TypeTable {
    /// The definition bound to key `k`, if any.
    pub open spec fn spec_lookup(&self, k: Seq<char>) -> Option<TypeDefinition> {
        table_lookup(self.entries@, k)
    }

    /// An empty table.
    pub fn new() -> (r: TypeTable)
        ensures
            forall|k: Seq<char>| r.spec_lookup(k) is None,
            r.entries@.len() == 0,
    {
        TypeTable { entries: Vec::new() }
    }

    /// Binds `key` to `td`, shadowing any older entry with the same key.
    pub fn insert(&mut self, key: String, td: TypeDefinition)
        ensures
            final(self).spec_lookup(key@) == Some(td),
            forall|k: Seq<char>|
                k != key@ ==> final(self).spec_lookup(k) == old(self).spec_lookup(k),
            final(self).entries@.len() == old(self).entries@.len() + 1,
    {
        self.entries.insert(0, (key, td));
        proof {
            assert(self.entries@.skip(1) =~= old(self).entries@);
        }
    }

    /// Looks the key up, returning the newest entry bound to it.
    pub fn get<'a>(&'a self, key: &str) -> (r: Option<&'a TypeDefinition>)
        ensures
            match r {
                Some(td) => self.spec_lookup(key@) == Some(*td),
                None => self.spec_lookup(key@) is None,
            },
    {
        let n = self.entries.len();
        let mut i: usize = 0;
        while i < n
            invariant
                n == self.entries@.len(),
                i <= n,
                forall|j: int| 0 <= j < i ==> self.entries@[j].0@ != key@,
            decreases n - i,
        {
            if str_eq(self.entries[i].0.as_str(), key) {
                proof {
                    lemma_table_lookup_found(self.entries@, key@, i as int);
                }
                return Some(&self.entries[i].1);
            }
            i += 1;
        }
        proof {
            lemma_table_lookup_none(self.entries@, key@);
        }
        None
    }
}

/// Builds the table holding a definition for every supported primitive type.
pub fn get_primitive_type_table() -> (r: TypeTable)
    ensures
        forall|k: Seq<char>|
            (is_supported_numeric_name(k) || is_supported_nonnumeric_name(k)) ==> {
                &&& #[trigger] r.spec_lookup(k) is Some
                &&& is_primitive_definition_of(r.spec_lookup(k)->Some_0, k)
            },
        forall|k: Seq<char>|
            !(is_supported_numeric_name(k) || is_supported_nonnumeric_name(k)) ==> #[trigger] r
                .spec_lookup(k) is None,
{
    let mut ret = TypeTable::new();
    ret.insert(String::from_str("u8"), TypeDefinition::primitive("u8"));
    ret.insert(String::from_str("u16"), TypeDefinition::primitive("u16"));
    ret.insert(String::from_str("u32"), TypeDefinition::primitive("u32"));
    ret.insert(String::from_str("u64"), TypeDefinition::primitive("u64"));
    ret.insert(String::from_str("u128"), TypeDefinition::primitive("u128"));
    ret.insert(String::from_str("usize"), TypeDefinition::primitive("usize"));
    ret.insert(String::from_str("i8"), TypeDefinition::primitive("i8"));
    ret.insert(String::from_str("i16"), TypeDefinition::primitive("i16"));
    ret.insert(String::from_str("i32"), TypeDefinition::primitive("i32"));
    ret.insert(String::from_str("i64"), TypeDefinition::primitive("i64"));
    ret.insert(String::from_str("i128"), TypeDefinition::primitive("i128"));
    ret.insert(String::from_str("isize"), TypeDefinition::primitive("isize"));
    ret.insert(String::from_str("f64"), TypeDefinition::primitive("f64"));
    ret.insert(String::from_str("String"), TypeDefinition::primitive("String"));
    ret.insert(String::from_str("bool"), TypeDefinition::primitive("bool"));
    proof {
        reveal_strlit("u8");
        reveal_strlit("u16");
        reveal_strlit("u32");
        reveal_strlit("u64");
        reveal_strlit("u128");
        reveal_strlit("usize");
        reveal_strlit("i8");
        reveal_strlit("i16");
        reveal_strlit("i32");
        reveal_strlit("i64");
        reveal_strlit("i128");
        reveal_strlit("isize");
        reveal_strlit("f64");
        reveal_strlit("String");
        reveal_strlit("bool");
    }
    ret
}

/// `td` is the primitive definition for the type named `k`.
pub open spec fn is_primitive_definition_of(td: TypeDefinition, k: Seq<char>) -> bool {
    &&& td.type_id@ == k
    &&& td.type_id_escaped@ == escape_seq(k)
    &&& td.import_path@ == k
    &&& td.inner_iterable_type_id is None
    &&& td.property_definitions@.len() == 0
}

/// One declared property of a component.
#[derive(Clone, Default)]
pub struct PropertyDefinition {
    /// Symbolic identifier of the property.
    pub name: String,
    /// Flags denoting repeat bindings and wrapping.
    pub flags: PropertyDefinitionFlags,
    /// Statically known type id of the property's type definition.
    pub type_id: String,
}

/// Modal flags of a property definition, used by expression compilation.
#[derive(Clone, Copy, PartialEq, Eq, Structural)]
pub struct PropertyDefinitionFlags {
    /// The property is the `i` in `for (elem, i)`.
    pub is_binding_repeat_i: bool,
    /// The property is the `elem` in `for (elem, i)` or `for elem in 0..5`.
    pub is_binding_repeat_elem: bool,
    /// The iterated source is a range.
    pub is_repeat_source_range: bool,
    /// The iterated source is an iterable collection.
    pub is_repeat_source_iterable: bool,
    /// The property is wrapped in a property container.
    pub is_property_wrapped: bool,
}

impl PropertyDefinition {
    /// The type definition behind this property's type id.
    pub fn get_type_definition<'a>(&self, tt: &'a TypeTable) -> (r: &'a TypeDefinition)
        requires
            tt.spec_lookup(self.type_id@) is Some,
        ensures
            *r == tt.spec_lookup(self.type_id@)->Some_0,
    {
        tt.get(self.type_id.as_str()).unwrap()
    }

    /// The definition of the element type of an iterable property, if the
    /// property's type has one.
    pub fn get_inner_iterable_type_definition<'a>(&self, tt: &'a TypeTable) -> (r: Option<
        &'a TypeDefinition,
    >)
        requires
            tt.spec_lookup(self.type_id@) is Some,
            tt.spec_lookup(self.type_id@)->Some_0.inner_iterable_type_id matches Some(inner)
                ==> tt.spec_lookup(inner@) is Some,
        ensures
            match tt.spec_lookup(self.type_id@)->Some_0.inner_iterable_type_id {
                Some(inner) => r matches Some(td) && *td == tt.spec_lookup(inner@)->Some_0,
                None => r is None,
            },
    {
        let td = tt.get(self.type_id.as_str()).unwrap();
        match &td.inner_iterable_type_id {
            Some(iiti) => Some(tt.get(iiti.as_str()).unwrap()),
            None => None,
        }
    }

    /// Shorthand constructor for a primitive-typed property.
    pub fn primitive_with_name(ty_name: &str, symbol_name: &str) -> (r: PropertyDefinition)
        ensures
            r.name@ == symbol_name@,
            r.flags == PropertyDefinitionFlags::plain(),
            r.type_id@ == ty_name@,
    {
        PropertyDefinition {
            name: String::from_str(symbol_name),
            flags: PropertyDefinitionFlags::default(),
            type_id: String::from_str(ty_name),
        }
    }
}

impl PropertyDefinitionFlags {
    /// Flags with every axis off.
    pub open spec fn plain() -> PropertyDefinitionFlags {
        PropertyDefinitionFlags {
            is_binding_repeat_i: false,
            is_binding_repeat_elem: false,
            is_repeat_source_range: false,
            is_repeat_source_iterable: false,
            is_property_wrapped: false,
        }
    }
}

impl Default for PropertyDefinitionFlags {
    /// Flags with every axis off.
    fn default() -> (r: PropertyDefinitionFlags)
        ensures
            r == PropertyDefinitionFlags::plain(),
    {
        PropertyDefinitionFlags {
            is_binding_repeat_i: false,
            is_binding_repeat_elem: false,
            is_repeat_source_range: false,
            is_repeat_source_iterable: false,
            is_property_wrapped: false,
        }
    }
}

/// Metadata about a property's type.
#[derive(Clone, Default)]
pub struct TypeDefinition {
    /// Program-unique id for this type.
    pub type_id: String,
    /// The same id escaped into a valid single identifier.
    pub type_id_escaped: String,
    /// Import path without generics, for qualifying the type.
    pub import_path: String,
    /// For an iterable type, the type id of its element type.
    pub inner_iterable_type_id: Option<String>,
    /// Known addressable sub-properties of this type.
    pub property_definitions: Vec<PropertyDefinition>,
}

impl TypeDefinition {
    /// Definition of a primitive type: the type id is its own import path.
    pub fn primitive(ty_name: &str) -> (r: TypeDefinition)
        ensures
            is_primitive_definition_of(r, ty_name@),
    {
        TypeDefinition {
            type_id_escaped: escape_identifier(ty_name),
            type_id: String::from_str(ty_name),
            property_definitions: Vec::new(),
            inner_iterable_type_id: None,
            import_path: String::from_str(ty_name),
        }
    }

    /// Definition of the built-in iterable source type used by repeat
    /// expressions over collections.
    pub fn builtin_vec_rc_properties_coproduct(inner_iterable_type_id: String) -> (r:
        TypeDefinition)
        ensures
            r.type_id@ == "std::vec::Vec<std::rc::Rc<PropertiesCoproduct>>"@,
            r.type_id_escaped@ == escape_seq("std::vec::Vec<std::rc::Rc<PropertiesCoproduct>>"@),
            r.import_path@ == "std::vec::Vec"@,
            r.inner_iterable_type_id == Some(inner_iterable_type_id),
            r.property_definitions@.len() == 0,
    {
        let type_id = "std::vec::Vec<std::rc::Rc<PropertiesCoproduct>>";
        TypeDefinition {
            type_id: String::from_str(type_id),
            type_id_escaped: escape_identifier(type_id),
            property_definitions: Vec::new(),
            inner_iterable_type_id: Some(inner_iterable_type_id),
            import_path: String::from_str("std::vec::Vec"),
        }
    }

    /// Definition of the built-in numeric range source type used by repeat
    /// expressions over ranges.
    pub fn builtin_range_isize() -> (r: TypeDefinition)
        ensures
            r.type_id@ == "std::ops::Range<isize>"@,
            r.type_id_escaped@ == escape_seq("std::ops::Range<isize>"@),
            r.import_path@ == "std::ops::Range"@,
            r.inner_iterable_type_id matches Some(inner) && inner@ == "isize"@,
            r.property_definitions@.len() == 0,
    {
        let type_id = "std::ops::Range<isize>";
        TypeDefinition {
            type_id: String::from_str(type_id),
            type_id_escaped: escape_identifier(type_id),
            property_definitions: Vec::new(),
            inner_iterable_type_id: Some(String::from_str("isize")),
            import_path: String::from_str("std::ops::Range"),
        }
    }

    /// Definition of the built-in shared properties-bag type.
    pub fn builtin_rc_properties_coproduct() -> (r: TypeDefinition)
        ensures
            r.type_id@ == "std::rc::Rc<PropertiesCoproduct>"@,
            r.type_id_escaped@ == escape_seq("std::rc::Rc<PropertiesCoproduct>"@),
            r.import_path@ == "std::rc::Rc"@,
            r.inner_iterable_type_id is None,
            r.property_definitions@.len() == 0,
    {
        let type_id = "std::rc::Rc<PropertiesCoproduct>";
        TypeDefinition {
            type_id: String::from_str(type_id),
            type_id_escaped: escape_identifier(type_id),
            property_definitions: Vec::new(),
            inner_iterable_type_id: None,
            import_path: String::from_str("std::rc::Rc"),
        }
    }
}

/// A parsed settings value, in all its possible shapes.
pub enum ValueDefinition {
    Undefined,
    LiteralValue(String),
    Block(LiteralBlockDefinition),
    /// Expression contents and the vtable id it was compiled into.
    Expression(String, Option<usize>),
    /// Identifier contents and the vtable id it was compiled into.
    Identifier(String, Option<usize>),
    EventBindingTarget(String),
}

/// A parsed repeat predicate: `elem` alone, or `(elem, i)`.
#[derive(Clone)]
pub enum ControlFlowRepeatPredicateDefinition {
    ElemId(String),
    ElemIdIndexId(String, String),
}

/// Parsed control-flow attributes of a template node.
#[derive(Clone, Default)]
pub struct ControlFlowSettingsDefinition {
    pub condition_expression_paxel: Option<String>,
    pub condition_expression_vtable_id: Option<usize>,
    pub slot_index_expression_paxel: Option<String>,
    pub slot_index_expression_vtable_id: Option<usize>,
    pub repeat_predicate_definition: Option<ControlFlowRepeatPredicateDefinition>,
    pub repeat_source_definition: Option<ControlFlowRepeatSourceDefinition>,
}

/// A parsed repeat source: a range expression or a symbolic binding.
#[derive(Clone, Default)]
pub struct ControlFlowRepeatSourceDefinition {
    pub range_expression_paxel: Option<String>,
    pub vtable_id: Option<usize>,
    pub symbolic_binding: Option<String>,
}

/// A parsed selector block inside a settings section.
pub struct SettingsSelectorBlockDefinition {
    pub selector: String,
    pub value_block: LiteralBlockDefinition,
}

/// A parsed literal block of key-value settings.
pub struct LiteralBlockDefinition {
    pub explicit_type_pascal_identifier: Option<String>,
    pub settings_key_value_pairs: Vec<(String, ValueDefinition)>,
}

/// A declared size unit.
#[derive(Clone, Copy, PartialEq, Eq, Structural)]
pub enum Unit {
    Pixels,
    Percent,
}

/// One parsed event binding: the event key and its handler names.
#[derive(Clone)]
pub struct EventDefinition {
    pub key: String,
    pub value: Vec<String>,
}

/// Parameters of a project-creation run.
pub struct CreateContext {
    pub path: String,
    pub is_libdev_mode: bool,
    pub version: String,
}

/// Parameters of a build-or-run invocation. Spawning and tracking child
/// processes is the host's business and stays outside the library.
pub struct RunContext {
    pub target: RunTarget,
    pub path: String,
    pub verbose: bool,
    pub should_also_run: bool,
    pub is_libdev_mode: bool,
}

/// The platform a build targets.
#[derive(Clone, Copy, PartialEq, Eq, Structural, Debug)]
pub enum RunTarget {
    MacOS,
    Web,
}

/// The lower-cased names accepted as a target.
pub open spec fn run_target_of(s: Seq<char>) -> Option<RunTarget> {
    if s == "macos"@ {
        Some(RunTarget::MacOS)
    } else if s == "web"@ {
        Some(RunTarget::Web)
    } else {
        None
    }
}

impl RunTarget {
    /// Parses a target name, ignoring the case of its ASCII letters (target
    /// names hold nothing else); any other name is no target.
    pub fn parse(input: &str) -> (r: Option<RunTarget>)
        ensures
            r == run_target_of(crate::text::lower_ascii(input@)),
    {
        let lowered = crate::text::to_ascii_lowercase_string(input);
        if str_eq(lowered.as_str(), "macos") {
            Some(RunTarget::MacOS)
        } else if str_eq(lowered.as_str(), "web") {
            Some(RunTarget::Web)
        } else {
            None
        }
    }

    /// The display name of the target.
    pub fn as_str(&self) -> (r: &'static str)
        ensures
            *self is Web ==> r@ == "Web"@,
            *self is MacOS ==> r@ == "MacOS"@,
    {
        match self {
            RunTarget::Web => "Web",
            RunTarget::MacOS => "MacOS",
        }
    }
}

/// Identity of the host crate a cartridge is generated into.
pub struct HostCrateInfo {
    /// The package name, for example `pax-example`.
    pub name: String,
    /// The same name as a Rust identifier, for example `pax_example`.
    pub identifier: String,
    /// The path under which the host crate re-exports its types.
    pub import_prefix: String,
}

impl HostCrateInfo {
    /// Derives the host-crate identity from its package name.
    pub fn from_package_name(name: &str) -> (r: HostCrateInfo)
        ensures
            r.name@ == name@,
            r.identifier@ == replace_seq(name@, "-"@, "_"@),
            r.import_prefix@ == replace_seq(name@, "-"@, "_"@) + "::pax_reexports::"@,
    {
        proof {
            reveal_strlit("-");
        }
        let identifier = replace_all(name, "-", "_");
        let import_prefix = identifier.clone().concat("::pax_reexports::");
        HostCrateInfo { name: String::from_str(name), identifier, import_prefix }
    }
}

/// Rewrites the property definitions of one type, substituting the host
/// crate's import prefix for the prefix placeholder in each type id.
fn updated_property_definitions(pds: &Vec<PropertyDefinition>, prefix: &str) -> (r: Vec<
    PropertyDefinition,
>)
    ensures
        r@.len() == pds@.len(),
        forall|j: int|
            0 <= j < r@.len() ==> {
                &&& (#[trigger] r@[j]).name == pds@[j].name
                &&& r@[j].flags == pds@[j].flags
                &&& r@[j].type_id@ == replace_seq(pds@[j].type_id@, "{PREFIX}"@, prefix@)
            },
{
    proof {
        reveal_strlit("{PREFIX}");
    }
    let mut r: Vec<PropertyDefinition> = Vec::new();
    let n = pds.len();
    let mut i: usize = 0;
    while i < n
        invariant
            n == pds@.len(),
            i <= n,
            r@.len() == i,
            forall|j: int|
                0 <= j < i ==> {
                    &&& (#[trigger] r@[j]).name == pds@[j].name
                    &&& r@[j].flags == pds@[j].flags
                    &&& r@[j].type_id@ == replace_seq(pds@[j].type_id@, "{PREFIX}"@, prefix@)
                },
        decreases n - i,
    {
        proof {
            reveal_strlit("{PREFIX}");
        }
        r.push(
            PropertyDefinition {
                name: pds[i].name.clone(),
                flags: pds[i].flags,
                type_id: replace_all(pds[i].type_id.as_str(), "{PREFIX}", prefix),
            },
        );
        i += 1;
    }
    r
}

/// The relation between one type-table entry before and after prefix
/// substitution: the key and every type id take the host crate's import
/// prefix, the escaped id drops the placeholder, and all else is kept.
pub open spec fn prefixes_updated(
    o: (String, TypeDefinition),
    n: (String, TypeDefinition),
    prefix: Seq<char>,
) -> bool {
    &&& n.0@ == replace_seq(o.0@, "{PREFIX}"@, prefix)
    &&& n.1.type_id@ == replace_seq(o.1.type_id@, "{PREFIX}"@, prefix)
    &&& n.1.type_id_escaped@ == replace_seq(o.1.type_id_escaped@, "{PREFIX}"@, ""@)
    &&& n.1.import_path == o.1.import_path
    &&& n.1.inner_iterable_type_id == o.1.inner_iterable_type_id
    &&& n.1.property_definitions@.len() == o.1.property_definitions@.len()
    &&& forall|j: int|
        0 <= j < n.1.property_definitions@.len() ==> {
            &&& (#[trigger] n.1.property_definitions@[j]).name == o.1.property_definitions@[j].name
            &&& n.1.property_definitions@[j].flags == o.1.property_definitions@[j].flags
            &&& n.1.property_definitions@[j].type_id@ == replace_seq(
                o.1.property_definitions@[j].type_id@,
                "{PREFIX}"@,
                prefix,
            )
        }
}

/// Substitutes the host crate's import prefix for the prefix placeholder
/// throughout the manifest's type table, entry by entry.
pub fn update_property_prefixes_in_place(manifest: &mut PaxManifest, host_crate_info: &HostCrateInfo)
    ensures
        final(manifest).components == old(manifest).components,
        final(manifest).main_component_type_id == old(manifest).main_component_type_id,
        final(manifest).expression_specs == old(manifest).expression_specs,
        final(manifest).import_paths == old(manifest).import_paths,
        final(manifest).type_table.entries@.len() == old(manifest).type_table.entries@.len(),
        forall|i: int|
            0 <= i < final(manifest).type_table.entries@.len() ==> prefixes_updated(
                old(manifest).type_table.entries@[i],
                #[trigger] final(manifest).type_table.entries@[i],
                host_crate_info.import_prefix@,
            ),
{
    proof {
        reveal_strlit("{PREFIX}");
    }
    let prefix = host_crate_info.import_prefix.as_str();
    let mut updated: Vec<(String, TypeDefinition)> = Vec::new();
    let n = manifest.type_table.entries.len();
    let mut i: usize = 0;
    while i < n
        invariant
            n == manifest.type_table.entries@.len(),
            manifest.type_table.entries@ == old(manifest).type_table.entries@,
            prefix@ == host_crate_info.import_prefix@,
            i <= n,
            updated@.len() == i,
            forall|j: int|
                0 <= j < i ==> prefixes_updated(
                    manifest.type_table.entries@[j],
                    #[trigger] updated@[j],
                    prefix@,
                ),
        decreases n - i,
    {
        proof {
            reveal_strlit("{PREFIX}");
        }
        let entry = &manifest.type_table.entries[i];
        let new_key = replace_all(entry.0.as_str(), "{PREFIX}", prefix);
        let td = &entry.1;
        let new_td = TypeDefinition {
            type_id: replace_all(td.type_id.as_str(), "{PREFIX}", prefix),
            type_id_escaped: replace_all(td.type_id_escaped.as_str(), "{PREFIX}", ""),
            import_path: td.import_path.clone(),
            inner_iterable_type_id: match &td.inner_iterable_type_id {
                Some(s) => Some(s.clone()),
                None => None,
            },
            property_definitions: updated_property_definitions(&td.property_definitions, prefix),
        };
        updated.push((new_key, new_td));
        i += 1;
    }
    manifest.type_table = TypeTable { entries: updated };
}

/// The event-binding pairs among a node's inline settings, in declared order.
pub open spec fn bound_events_of(s: Seq<(String, ValueDefinition)>) -> Seq<(String, String)>
    decreases s.len(),
{
    if s.len() == 0 {
        Seq::<(String, String)>::empty()
    } else {
        let rest = bound_events_of(s.skip(1));
        if s[0].1 is EventBindingTarget {
            seq![(s[0].0, s[0].1->EventBindingTarget_0)] + rest
        } else {
            rest
        }
    }
}

/// Collects the event bindings among a node's inline settings.
pub fn generate_bound_events(inline_settings: Option<Vec<(String, ValueDefinition)>>) -> (r: Vec<
    (String, String),
>)
    ensures
        match inline_settings {
            Some(inline) => r@ == bound_events_of(inline@),
            None => r@.len() == 0,
        },
{
    let mut ret: Vec<(String, String)> = Vec::new();
    match &inline_settings {
        Some(inline) => {
            let n = inline.len();
            let mut i: usize = n;
            while i > 0
                invariant
                    n == inline@.len(),
                    i <= n,
                    ret@ == bound_events_of(inline@.skip(i as int)),
                decreases i,
            {
                i -= 1;
                let ghost prev = ret@;
                match &inline[i].1 {
                    ValueDefinition::EventBindingTarget(s) => {
                        ret.insert(0, (inline[i].0.clone(), s.clone()));
                    },
                    _ => {},
                }
                proof {
                    let rest = inline@.skip(i as int);
                    assert(rest[0] == inline@[i as int]);
                    assert(rest.skip(1) =~= inline@.skip(i as int + 1));
                    if inline@[i as int].1 is EventBindingTarget {
                        assert(ret@ =~= seq![
                            (inline@[i as int].0, inline@[i as int].1->EventBindingTarget_0),
                        ] + prev);
                    }
                }
            }
            proof {
                assert(inline@.skip(0) =~= inline@);
            }
        },
        None => {},
    }
    ret
}

/// Collects a component's declared events into key/handler-list pairs,
/// one pair per declared event, in declared order. A key declared twice
/// yields two pairs; a reader that wants map semantics takes the later one.
pub fn generate_events_map(events: Option<Vec<EventDefinition>>) -> (r: Vec<(String, Vec<String>)>)
    ensures
        match events {
            Some(list) => {
                &&& r@.len() == list@.len()
                &&& forall|i: int|
                    0 <= i < r@.len() ==> (#[trigger] r@[i]).0 == list@[i].key && r@[i].1@
                        == list@[i].value@
            },
            None => r@.len() == 0,
        },
{
    let mut ret: Vec<(String, Vec<String>)> = Vec::new();
    match &events {
        Some(list) => {
            let n = list.len();
            let mut i: usize = 0;
            while i < n
                invariant
                    n == list@.len(),
                    i <= n,
                    ret@.len() == i,
                    forall|j: int|
                        0 <= j < i ==> (#[trigger] ret@[j]).0 == list@[j].key && ret@[j].1@
                            == list@[j].value@,
                decreases n - i,
            {
                ret.push((list[i].key.clone(), crate::text::clone_strings(&list[i].value)));
                i += 1;
            }
        },
        None => {},
    }
    ret
}

} // verus!
