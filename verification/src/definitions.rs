//! The property definition registry: each CSS property's grammar is
//! compiled once and kept; datatype references are resolved against the
//! typedef table or the built-in datatypes; declared initial values are
//! checked against the compiled grammar.

use vstd::prelude::*;

use vstd::hash_map::StringHashMap;

use crate::grammar_spec::{spec_compile, CompileModel};
use crate::match_spec::spec_matches;
use crate::matcher::CssSyntaxTree;
use crate::strings::{seq_in_list, str_in_list};
use crate::syntax::{
    comp_models, duplicate_components, lemma_comp_models, lemma_comp_models_push, ComponentModel,
    SyntaxComponent, SyntaxComponentMultiplier,
};
use crate::values::{models, CssValue, ValueModel};

verus! {

/// The datatype names that the matcher understands natively.
pub open spec fn spec_builtin_datatypes() -> Seq<Seq<char>> {
    seq![
        "percentage"@, "angle"@, "length"@, "system-color"@, "named-color"@, "color()"@,
        "hex-color"@
    ]
}

/// The built-in datatype names.
pub fn builtin_datatypes() -> (r: Vec<String>)
    ensures
        r.deep_view() == spec_builtin_datatypes(),
{
    let mut v: Vec<String> = Vec::new();
    v.push("percentage".to_owned());
    v.push("angle".to_owned());
    v.push("length".to_owned());
    v.push("system-color".to_owned());
    v.push("named-color".to_owned());
    v.push("color()".to_owned());
    v.push("hex-color".to_owned());
    proof {
        assert(v.deep_view() =~~= spec_builtin_datatypes());
    }
    v
}

/// Mathematical content of a property definition.
pub ghost struct PropertyModel {
    pub name: Seq<char>,
    pub expanded_properties: Seq<Seq<char>>,
    pub syntax: Seq<ComponentModel>,
    pub inherits: bool,
    pub initial_value: Option<ValueModel>,
}

/// A CSS property definition: its compiled grammar, its inheritance flag,
/// its optional initial value and its optional expanded (shorthand)
/// properties.
pub struct PropertyDefinition {
    /// Name of the property.
    pub name: String,
    /// The expanded properties, when this property is a shorthand.
    pub expanded_properties: Vec<String>,
    /// The compiled syntax tree describing the valid values.
    pub syntax: CssSyntaxTree,
    /// True when the property inherits from parent nodes when not set.
    pub inherits: bool,
    /// The initial value of the property, if any.
    pub initial_value: Option<CssValue>,
}

/// The input sequence that one declared value stands for: a list spreads
/// into its items, anything else is a one-value sequence.
pub open spec fn value_input(v: ValueModel) -> Seq<ValueModel> {
    match v {
        ValueModel::List(items) => items,
        _ => seq![v],
    }
}

impl PropertyDefinition {
    /// The definition as a mathematical value.
    pub open spec fn model(&self) -> PropertyModel {
        PropertyModel {
            name: self.name@,
            expanded_properties: self.expanded_properties@.map_values(|u: String| u@),
            syntax: comp_models(self.syntax.components@),
            inherits: self.inherits,
            initial_value: match self.initial_value {
                Option::Some(ref v) => Option::Some(v.model()),
                Option::None => Option::None,
            },
        }
    }

    /// Whether the definition accepts the value: its grammar must have one
    /// root, and the value's sequence (a list spreads into its items) must
    /// match in full.
    pub open spec fn spec_accepts(m: PropertyModel, v: ValueModel) -> bool {
        m.syntax.len() == 1 && spec_matches(m.syntax[0], value_input(v))
    }

    /// The name of the property.
    pub fn name(&self) -> (r: &str)
        ensures
            r@ == self.model().name,
    {
        self.name.as_str()
    }

    /// Whether the property is a shorthand with expanded properties.
    pub fn expanded_properties(&self) -> (r: &Vec<String>)
        ensures
            r@.map_values(|u: String| u@) == self.model().expanded_properties,
    {
        &self.expanded_properties
    }

    /// The compiled syntax tree.
    pub fn syntax(&self) -> (r: &CssSyntaxTree)
        ensures
            comp_models(r.components@) == self.model().syntax,
    {
        &self.syntax
    }

    /// Whether the property inherits.
    pub fn inherits(&self) -> (r: bool)
        ensures
            r == self.model().inherits,
    {
        self.inherits
    }

    /// Whether the property declares an initial value.
    pub fn has_initial_value(&self) -> (r: bool)
        ensures
            r == (self.model().initial_value is Some),
    {
        self.initial_value.is_some()
    }

    /// Matches one declared value against the definition's grammar.  A list
    /// value spreads into its items.  False when the grammar does not have
    /// exactly one root.
    pub fn matches(&self, value: &CssValue) -> (r: bool)
        requires
            match value {
                CssValue::List(items) => items@.len() < usize::MAX,
                _ => true,
            },
        ensures
            r == Self::spec_accepts(self.model(), value.model()),
    {
        let input: Vec<CssValue> = match value {
            CssValue::List(items) => crate::values::duplicate_values(items),
            _ => {
                let mut one: Vec<CssValue> = Vec::new();
                one.push(value.duplicate());
                proof {
                    crate::values::lemma_models(one@);
                    assert(models(one@) =~= seq![value.model()]);
                }
                one
            },
        };
        proof {
            crate::values::lemma_models(input@);
            lemma_comp_models(self.syntax.components@);
        }
        if self.syntax.components.len() != 1 {
            return false;
        }
        self.syntax.matches(input)
    }

    /// A copy of the definition.
    pub fn duplicate(&self) -> (r: Self)
        ensures
            r.model() == self.model(),
    {
        let mut expanded: Vec<String> = Vec::new();
        let mut i: usize = 0;
        while i < self.expanded_properties.len()
            invariant
                i <= self.expanded_properties@.len(),
                expanded@.len() == i,
                forall|j: int|
                    0 <= j < i ==> #[trigger] expanded@[j]@ == self.expanded_properties@[j]@,
            decreases self.expanded_properties@.len() - i,
        {
            expanded.push(self.expanded_properties[i].clone());
            i = i + 1;
        }
        proof {
            assert(expanded@.map_values(|u: String| u@) =~= self.expanded_properties@.map_values(
                |u: String| u@,
            ));
        }
        let initial = match &self.initial_value {
            Some(v) => Some(v.duplicate()),
            None => None,
        };
        PropertyDefinition {
            name: self.name.clone(),
            expanded_properties: expanded,
            syntax: CssSyntaxTree::new(duplicate_components(&self.syntax.components)),
            inherits: self.inherits,
            initial_value: initial,
        }
    }
}

/// A typedef: a named grammar that datatype references resolve to.
pub struct CssPropertyTypeDef {
    /// Name of the typedef.
    pub name: String,
    /// The compiled syntax tree of the typedef.
    pub syntax: CssSyntaxTree,
}

impl CssPropertyTypeDef {
    /// The name of the typedef.
    pub fn name(&self) -> (r: &str)
        ensures
            r@ == self.name@,
    {
        self.name.as_str()
    }

    /// The compiled syntax tree.
    pub fn syntax(&self) -> (r: &CssSyntaxTree)
        ensures
            r.components@ == self.syntax.components@,
    {
        &self.syntax
    }
}

/// The typedef table: typedef name to its compiled grammar.
pub struct CssPropertyTypeDefs {
    typedefs: StringHashMap<CssPropertyTypeDef>,
}

impl CssPropertyTypeDefs {
    /// The table as a map from name to the typedef grammar's components.
    pub closed spec fn model(&self) -> Map<Seq<char>, Seq<ComponentModel>> {
        self.typedefs@.map_values(|td: CssPropertyTypeDef| comp_models(td.syntax.components@))
    }

    /// Creates an empty typedef table.
    pub fn new() -> (r: Self)
        ensures
            r.model() == Map::<Seq<char>, Seq<ComponentModel>>::empty(),
    {
        let r = CssPropertyTypeDefs { typedefs: StringHashMap::new() };
        proof {
            assert(r.model() =~= Map::<Seq<char>, Seq<ComponentModel>>::empty());
        }
        r
    }

    /// Adds or replaces a typedef.
    pub fn add_typedef(&mut self, name: &str, typedef: CssPropertyTypeDef)
        ensures
            final(self).model() == old(self).model().insert(
                name@,
                comp_models(typedef.syntax.components@),
            ),
    {
        let ghost m0 = self.model();
        let ghost tdm = comp_models(typedef.syntax.components@);
        self.typedefs.insert(name.to_owned(), typedef);
        proof {
            assert(self.model() =~= m0.insert(name@, tdm));
        }
    }

    /// Looks up a typedef's grammar components.
    pub fn find(&self, name: &str) -> (r: Option<&CssPropertyTypeDef>)
        ensures
            match r {
                Option::Some(td) => self.model().contains_key(name@) && comp_models(
                    td.syntax.components@,
                ) == self.model()[name@],
                Option::None => !self.model().contains_key(name@),
            },
    {
        self.typedefs.get(name)
    }

    /// The number of typedefs.
    pub fn len(&self) -> (r: usize)
        ensures
            r == self.model().dom().len(),
    {
        proof {
            assert(self.model().dom() =~= self.typedefs@.dom());
        }
        self.typedefs.len()
    }

    /// Whether the table is empty.
    pub fn is_empty(&self) -> (r: bool)
        ensures
            r == (self.model() == Map::<Seq<char>, Seq<ComponentModel>>::empty()),
    {
        let e = self.typedefs.is_empty();
        proof {
            if e {
                assert(self.model() =~= Map::<Seq<char>, Seq<ComponentModel>>::empty());
            } else {
                let k = choose|k: Seq<char>| self.typedefs@.contains_key(k);
                assert(self.model().contains_key(k));
            }
        }
        e
    }
}

/// The property definition registry.
pub struct CssPropertyDefinitions {
    definitions: StringHashMap<PropertyDefinition>,
}

impl CssPropertyDefinitions {
    /// The registry as a map from property name to definition content.
    pub closed spec fn model(&self) -> Map<Seq<char>, PropertyModel> {
        self.definitions@.map_values(|d: PropertyDefinition| d.model())
    }

    /// Creates an empty registry.
    pub fn empty() -> (r: Self)
        ensures
            r.model() == Map::<Seq<char>, PropertyModel>::empty(),
    {
        let r = CssPropertyDefinitions { definitions: StringHashMap::new() };
        proof {
            assert(r.model() =~= Map::<Seq<char>, PropertyModel>::empty());
        }
        r
    }

    /// Adds or replaces a property definition.
    pub fn add_definition(&mut self, name: &str, definition: PropertyDefinition)
        ensures
            final(self).model() == old(self).model().insert(name@, definition.model()),
    {
        let ghost m0 = self.model();
        let ghost dm = definition.model();
        self.definitions.insert(name.to_owned(), definition);
        proof {
            assert(self.model() =~= m0.insert(name@, dm));
        }
    }

    /// Looks up a property definition and hands back an owned copy.
    pub fn find(&self, name: &str) -> (r: Option<PropertyDefinition>)
        ensures
            match r {
                Option::Some(d) => self.model().contains_key(name@) && d.model()
                    == self.model()[name@],
                Option::None => !self.model().contains_key(name@),
            },
    {
        match self.definitions.get(name) {
            Some(d) => Some(d.duplicate()),
            None => None,
        }
    }

    /// The number of registered properties.
    pub fn len(&self) -> (r: usize)
        ensures
            r == self.model().dom().len(),
    {
        proof {
            assert(self.model().dom() =~= self.definitions@.dom());
        }
        self.definitions.len()
    }

    /// Whether the registry is empty.
    pub fn is_empty(&self) -> (r: bool)
        ensures
            r == (self.model() == Map::<Seq<char>, PropertyModel>::empty()),
    {
        let e = self.definitions.is_empty();
        proof {
            if e {
                assert(self.model() =~= Map::<Seq<char>, PropertyModel>::empty());
            } else {
                let k = choose|k: Seq<char>| self.definitions@.contains_key(k);
                assert(self.model().contains_key(k));
            }
        }
        e
    }
}

/// Resolution of a datatype reference, mathematically: a built-in datatype
/// name becomes a built-in leaf; a name found in the typedef table, while
/// fuel lasts, is replaced by the typedef's resolved root, keeping the
/// reference's multiplier when one was written; anything else stays as it
/// is.  Quoted references stay unresolved.  A resolved reference's own
/// numeric range is dropped: the built-in or the inlined typedef root
/// stands without it.
pub open spec fn resolve_model(
    c: ComponentModel,
    tds: Map<Seq<char>, Seq<ComponentModel>>,
    fuel: nat,
) -> ComponentModel
    decreases fuel, c,
{
    match c {
        ComponentModel::Definition { datatype, quoted, range, multiplier } => {
            if !quoted && seq_in_list(datatype, spec_builtin_datatypes()) {
                ComponentModel::Builtin { datatype, multiplier }
            } else if !quoted && fuel > 0 && tds.contains_key(datatype) && tds[datatype].len()
                == 1 {
                let root = resolve_model(tds[datatype][0], tds, (fuel - 1) as nat);
                if multiplier == SyntaxComponentMultiplier::Once {
                    root
                } else {
                    root.with_multiplier(multiplier)
                }
            } else {
                c
            }
        },
        ComponentModel::Group { components, combinator, multiplier } => ComponentModel::Group {
            components: resolve_models(components, tds, fuel),
            combinator,
            multiplier,
        },
        ComponentModel::Function { name, arguments, multiplier } => ComponentModel::Function {
            name,
            arguments: resolve_models(arguments, tds, fuel),
            multiplier,
        },
        _ => c,
    }
}

/// Resolution of a sequence of components.
pub open spec fn resolve_models(
    s: Seq<ComponentModel>,
    tds: Map<Seq<char>, Seq<ComponentModel>>,
    fuel: nat,
) -> Seq<ComponentModel>
    decreases fuel, s,
{
    if s.len() == 0 {
        Seq::empty()
    } else {
        seq![resolve_model(s[0], tds, fuel)] + resolve_models(
            s.subrange(1, s.len() as int),
            tds,
            fuel,
        )
    }
}

/// Resolves one component against the typedef table, with a recursion
/// budget for typedefs that reference further typedefs.
pub fn resolve_component(
    c: &SyntaxComponent,
    tds: &CssPropertyTypeDefs,
    fuel: usize,
) -> (r: SyntaxComponent)
    ensures
        r.model() == resolve_model(c.model(), tds.model(), fuel as nat),
    decreases fuel, c,
{
    match c {
        SyntaxComponent::Definition { datatype, quoted, range, multiplier } => {
            if !*quoted && str_in_list(datatype.as_str(), &builtin_datatypes()) {
                SyntaxComponent::Builtin { datatype: datatype.clone(), multiplier: *multiplier }
            } else if !*quoted && fuel > 0 {
                match tds.find(datatype.as_str()) {
                    Some(td) => {
                        proof {
                            lemma_comp_models(td.syntax.components@);
                        }
                        if td.syntax.components.len() == 1 {
                            let mut root = resolve_component(
                                &td.syntax.components[0],
                                tds,
                                fuel - 1,
                            );
                            if matches!(multiplier, SyntaxComponentMultiplier::Once) {
                                root
                            } else {
                                root.update_multiplier(*multiplier);
                                root
                            }
                        } else {
                            c.duplicate()
                        }
                    },
                    None => c.duplicate(),
                }
            } else {
                c.duplicate()
            }
        },
        SyntaxComponent::Group { components, combinator, multiplier } => {
            SyntaxComponent::Group {
                components: resolve_component_list(components, tds, fuel),
                combinator: *combinator,
                multiplier: *multiplier,
            }
        },
        SyntaxComponent::Function { name, arguments, multiplier } => {
            SyntaxComponent::Function {
                name: name.clone(),
                arguments: resolve_component_list(arguments, tds, fuel),
                multiplier: *multiplier,
            }
        },
        _ => c.duplicate(),
    }
}

/// Resolves each component of a vector.
pub fn resolve_component_list(
    cs: &Vec<SyntaxComponent>,
    tds: &CssPropertyTypeDefs,
    fuel: usize,
) -> (r: Vec<SyntaxComponent>)
    ensures
        comp_models(r@) == resolve_models(comp_models(cs@), tds.model(), fuel as nat),
    decreases fuel, cs@,
{
    let mut out: Vec<SyntaxComponent> = Vec::new();
    let mut i: usize = 0;
    proof {
        lemma_comp_models(cs@);
        lemma_comp_models(out@);
        assert(comp_models(out@) =~= Seq::<ComponentModel>::empty());
        lemma_resolve_models(comp_models(cs@), tds.model(), fuel as nat);
    }
    while i < cs.len()
        invariant
            i <= cs@.len(),
            out@.len() == i,
            comp_models(cs@).len() == cs@.len(),
            forall|j: int| 0 <= j < cs@.len() ==> comp_models(cs@)[j] == cs@[j].model(),
            resolve_models(comp_models(cs@), tds.model(), fuel as nat).len() == cs@.len(),
            forall|j: int|
                0 <= j < cs@.len() ==> resolve_models(comp_models(cs@), tds.model(), fuel as nat)[j]
                    == resolve_model(comp_models(cs@)[j], tds.model(), fuel as nat),
            comp_models(out@).len() == i,
            forall|j: int|
                0 <= j < i ==> comp_models(out@)[j] == resolve_models(
                    comp_models(cs@),
                    tds.model(),
                    fuel as nat,
                )[j],
        decreases cs@.len() - i,
    {
        let d = resolve_component(&cs[i], tds, fuel);
        proof {
            lemma_comp_models_push(out@, d);
        }
        out.push(d);
        i = i + 1;
        proof {
            lemma_comp_models(out@);
        }
    }
    proof {
        assert(comp_models(out@) =~= resolve_models(comp_models(cs@), tds.model(), fuel as nat));
    }
    out
}

/// The resolved sequence has one resolved element for each input element.
pub proof fn lemma_resolve_models(
    s: Seq<ComponentModel>,
    tds: Map<Seq<char>, Seq<ComponentModel>>,
    fuel: nat,
)
    ensures
        resolve_models(s, tds, fuel).len() == s.len(),
        forall|i: int|
            0 <= i < s.len() ==> resolve_models(s, tds, fuel)[i] == resolve_model(
                s[i],
                tds,
                fuel,
            ),
    decreases s,
{
    if s.len() > 0 {
        lemma_resolve_models(s.subrange(1, s.len() as int), tds, fuel);
    }
}

/// Resolves a whole syntax tree against the typedef table.
pub fn resolve_tree(tree: &CssSyntaxTree, tds: &CssPropertyTypeDefs, fuel: usize) -> (r:
    CssSyntaxTree)
    ensures
        comp_models(r.components@) == resolve_models(
            comp_models(tree.components@),
            tds.model(),
            fuel as nat,
        ),
{
    CssSyntaxTree::new(resolve_component_list(&tree.components, tds, fuel))
}

/// One property record, as handed to the registry builder: the property
/// name, its grammar source, its inheritance flag, its optional initial
/// value and its optional expanded properties.
pub struct PropertyEntry {
    /// Name of the property.
    pub name: String,
    /// The grammar source text.
    pub syntax: String,
    /// True when the property inherits.
    pub inherits: bool,
    /// The declared initial value, if any.
    pub initial_value: Option<CssValue>,
    /// The expanded properties, when the property is a shorthand.
    pub expanded_properties: Vec<String>,
}

/// The typedef table that a list of name and grammar-source pairs builds,
/// mathematically: the pairs are taken in order, a pair whose grammar fails
/// to compile is skipped, every pair whose grammar compiles is present
/// under its name with exactly that compiled grammar, and a later pair
/// under the same name wins.
pub open spec fn typedefs_built(list: Seq<(Seq<char>, Seq<char>)>) -> Map<
    Seq<char>,
    Seq<ComponentModel>,
>
    decreases list,
{
    if list.len() == 0 {
        Map::empty()
    } else {
        let prev = typedefs_built(list.drop_last());
        match spec_compile(list.last().1) {
            CompileModel::Done(components) => prev.insert(list.last().0, components),
            CompileModel::Fail(_) => prev,
        }
    }
}

/// Compiles a table of typedefs from name and grammar-source pairs: the
/// result is exactly the table that the pairs build, with entries whose
/// grammar fails to compile skipped and later entries under a name winning.
pub fn compile_typedefs(list: &Vec<(String, String)>) -> (r: CssPropertyTypeDefs)
    ensures
        r.model() == typedefs_built(list@.map_values(|p: (String, String)| (p.0@, p.1@))),
{
    let ghost ml = list@.map_values(|p: (String, String)| (p.0@, p.1@));
    let mut tds = CssPropertyTypeDefs::new();
    let mut i: usize = 0;
    proof {
        assert(ml.subrange(0, 0) =~= Seq::<(Seq<char>, Seq<char>)>::empty());
        assert(tds.model() =~= typedefs_built(ml.subrange(0, 0)));
    }
    while i < list.len()
        invariant
            i <= list@.len(),
            ml == list@.map_values(|p: (String, String)| (p.0@, p.1@)),
            ml.len() == list@.len(),
            tds.model() == typedefs_built(ml.subrange(0, i as int)),
        decreases list@.len() - i,
    {
        let ghost pre = ml.subrange(0, i as int);
        let ghost cur = ml.subrange(0, i + 1);
        proof {
            assert(cur.drop_last() =~= pre);
            assert(ml[i as int] == (list@[i as int].0@, list@[i as int].1@));
            assert(cur.last() == ml[i as int]);
        }
        let name = &list[i].0;
        let source = &list[i].1;
        match crate::syntax::CssSyntax::new(source.as_str()).compile() {
            Ok(tree) => {
                let ghost compiled = comp_models(tree.components@);
                let td = CssPropertyTypeDef { name: name.clone(), syntax: tree };
                tds.add_typedef(name.as_str(), td);
                proof {
                    assert(tds.model() == typedefs_built(cur));
                }
            },
            Err(_) => {
                proof {
                    assert(tds.model() == typedefs_built(cur));
                }
            },
        }
        i = i + 1;
    }
    proof {
        assert(ml.subrange(0, i as int) =~= ml);
    }
    tds
}

/// What one property record contributes to the registry, mathematically:
/// nothing when its grammar fails to compile; otherwise the definition
/// content, with the compiled grammar resolved against the typedef table.
pub open spec fn entry_built(
    e: PropertyEntry,
    tds: Map<Seq<char>, Seq<ComponentModel>>,
    fuel: nat,
) -> Option<PropertyModel> {
    match spec_compile(e.syntax@) {
        CompileModel::Fail(_) => Option::None,
        CompileModel::Done(components) => Option::Some(
            PropertyModel {
                name: e.name@,
                expanded_properties: e.expanded_properties@.map_values(|u: String| u@),
                syntax: resolve_models(components, tds, fuel),
                inherits: e.inherits,
                initial_value: match e.initial_value {
                    Option::Some(ref v) => Option::Some(v.model()),
                    Option::None => Option::None,
                },
            },
        ),
    }
}

/// Whether a definition's declared initial value checks out: the value's
/// token sequence is of machine size and the definition accepts it.
pub open spec fn initial_ok(m: PropertyModel) -> bool {
    match m.initial_value {
        Option::Some(v) => value_input(v).len() < usize::MAX && PropertyDefinition::spec_accepts(
            m,
            v,
        ),
        Option::None => true,
    }
}

/// The registry that a list of property records builds: records are taken
/// in order, a record whose grammar fails to compile is skipped, every
/// other record is registered under its name with its resolved grammar,
/// and a later record under the same name wins.
pub open spec fn registry_built(
    entries: Seq<PropertyEntry>,
    tds: Map<Seq<char>, Seq<ComponentModel>>,
    fuel: nat,
) -> Map<Seq<char>, PropertyModel>
    decreases entries,
{
    if entries.len() == 0 {
        Map::empty()
    } else {
        let prev = registry_built(entries.drop_last(), tds, fuel);
        match entry_built(entries.last(), tds, fuel) {
            Option::Some(m) => prev.insert(entries.last().name@, m),
            Option::None => prev,
        }
    }
}

/// The issue reports that a list of property records produces, in order:
/// the name of every record whose grammar fails to compile, and of every
/// record whose declared initial value its own grammar rejects.
pub open spec fn issues_built(
    entries: Seq<PropertyEntry>,
    tds: Map<Seq<char>, Seq<ComponentModel>>,
    fuel: nat,
) -> Seq<Seq<char>>
    decreases entries,
{
    if entries.len() == 0 {
        Seq::empty()
    } else {
        let prev = issues_built(entries.drop_last(), tds, fuel);
        match entry_built(entries.last(), tds, fuel) {
            Option::None => prev.push(entries.last().name@),
            Option::Some(m) => if initial_ok(m) {
                prev
            } else {
                prev.push(entries.last().name@)
            },
        }
    }
}

/// Whether every registered property whose declared initial value was not
/// flagged as a mismatch does accept that initial value.
pub open spec fn initial_values_checked(
    m: Map<Seq<char>, PropertyModel>,
    issues: Seq<Seq<char>>,
) -> bool {
    forall|k: Seq<char>|
        #[trigger] m.contains_key(k) ==> m[k].name == k && (match m[k].initial_value {
            Option::Some(v) => seq_in_list(k, issues) || PropertyDefinition::spec_accepts(
                m[k],
                v,
            ),
            Option::None => true,
        })
}

/// Builds the property registry from plain records: the result is exactly
/// the registry that the records build — each record's grammar compiled
/// and resolved against the typedef table, a record whose grammar fails to
/// compile skipped and its name reported, every other record registered
/// under its name (a later record winning), and the name of every record
/// whose declared initial value its own grammar rejects reported while the
/// record stays registered.  Every registered definition whose initial
/// value went unreported accepts that initial value: compiling the corpus
/// and re-matching each declared initial value round-trips.
pub fn build_definitions(
    tds: &CssPropertyTypeDefs,
    entries: Vec<PropertyEntry>,
    fuel: usize,
) -> (r: (CssPropertyDefinitions, Vec<String>))
    ensures
        r.0.model() == registry_built(entries@, tds.model(), fuel as nat),
        r.1@.map_values(|u: String| u@) == issues_built(entries@, tds.model(), fuel as nat),
        initial_values_checked(r.0.model(), r.1@.map_values(|u: String| u@)),
{
    let mut defs = CssPropertyDefinitions::empty();
    let mut issues: Vec<String> = Vec::new();
    let mut i: usize = 0;
    proof {
        assert(entries@.subrange(0, 0) =~= Seq::<PropertyEntry>::empty());
        assert(defs.model() =~= registry_built(entries@.subrange(0, 0), tds.model(), fuel as nat));
        assert(issues@.map_values(|u: String| u@) =~= issues_built(
            entries@.subrange(0, 0),
            tds.model(),
            fuel as nat,
        ));
    }
    while i < entries.len()
        invariant
            i <= entries@.len(),
            defs.model() == registry_built(entries@.subrange(0, i as int), tds.model(), fuel as nat),
            issues@.map_values(|u: String| u@) == issues_built(
                entries@.subrange(0, i as int),
                tds.model(),
                fuel as nat,
            ),
            initial_values_checked(defs.model(), issues@.map_values(|u: String| u@)),
        decreases entries@.len() - i,
    {
        let ghost issues0 = issues@.map_values(|u: String| u@);
        let ghost pre = entries@.subrange(0, i as int);
        let ghost cur = entries@.subrange(0, i + 1);
        proof {
            assert(cur.drop_last() =~= pre);
            assert(cur.last() == entries@[i as int]);
        }
        let entry = &entries[i];
        match crate::syntax::CssSyntax::new(entry.syntax.as_str()).compile() {
            Err(_) => {
                issues.push(entry.name.clone());
                proof {
                    let issues1 = issues@.map_values(|u: String| u@);
                    assert(issues1 =~= issues0.push(entry.name@));
                    assert forall|x: Seq<char>| seq_in_list(x, issues0) implies seq_in_list(
                        x,
                        issues1,
                    ) by {
                        let w = choose|w: int| 0 <= w < issues0.len() && issues0[w] == x;
                        assert(issues1[w] == x);
                    }
                    assert(issues1 == issues_built(cur, tds.model(), fuel as nat));
                    assert(defs.model() == registry_built(cur, tds.model(), fuel as nat));
                }
            },
            Ok(tree) => {
                let resolved = resolve_tree(&tree, tds, fuel);
                let mut expanded: Vec<String> = Vec::new();
                let mut j: usize = 0;
                while j < entry.expanded_properties.len()
                    invariant
                        j <= entry.expanded_properties@.len(),
                        expanded@.len() == j,
                        forall|k: int|
                            0 <= k < j ==> #[trigger] expanded@[k]@
                                == entry.expanded_properties@[k]@,
                    decreases entry.expanded_properties@.len() - j,
                {
                    expanded.push(entry.expanded_properties[j].clone());
                    j = j + 1;
                }
                proof {
                    assert(expanded@.map_values(|u: String| u@)
                        =~= entry.expanded_properties@.map_values(|u: String| u@));
                }
                let initial = match &entry.initial_value {
                    Some(v) => Some(v.duplicate()),
                    None => None,
                };
                let def = PropertyDefinition {
                    name: entry.name.clone(),
                    expanded_properties: expanded,
                    syntax: resolved,
                    inherits: entry.inherits,
                    initial_value: initial,
                };
                proof {
                    assert(entry_built(entries@[i as int], tds.model(), fuel as nat)
                        == Option::Some(def.model()));
                }
                let ok = match &def.initial_value {
                    Some(v) => {
                        let fits = match v {
                            CssValue::List(items) => {
                                proof {
                                    crate::values::lemma_models(items@);
                                }
                                items.len() < usize::MAX
                            },
                            _ => true,
                        };
                        if fits {
                            def.matches(v)
                        } else {
                            false
                        }
                    },
                    None => true,
                };
                proof {
                    assert(ok == initial_ok(def.model()));
                }
                if !ok {
                    issues.push(entry.name.clone());
                }
                let ghost issues1 = issues@.map_values(|u: String| u@);
                proof {
                    assert forall|x: Seq<char>| seq_in_list(x, issues0) implies seq_in_list(
                        x,
                        issues1,
                    ) by {
                        let w = choose|w: int| 0 <= w < issues0.len() && issues0[w] == x;
                        assert(issues1[w] == x);
                    }
                    if !ok {
                        assert(issues1 =~= issues0.push(entry.name@));
                        assert(issues1[issues1.len() - 1] == entry.name@);
                        assert(seq_in_list(entry.name@, issues1));
                    } else {
                        assert(issues1 =~= issues0);
                    }
                    assert(issues1 == issues_built(cur, tds.model(), fuel as nat));
                }
                defs.add_definition(entry.name.as_str(), def);
                proof {
                    assert(defs.model() == registry_built(cur, tds.model(), fuel as nat));
                }
            },
        }
        i = i + 1;
    }
    proof {
        assert(entries@.subrange(0, i as int) =~= entries@);
    }
    (defs, issues)
}

/// Corpus round-trip: in a registry whose build reported no issues, every
/// property that declares an initial value accepts it — looking the
/// property up and matching its own initial value always succeeds.
pub proof fn lemma_corpus_round_trip(
    m: Map<Seq<char>, PropertyModel>,
    issues: Seq<Seq<char>>,
    k: Seq<char>,
)
    requires
        initial_values_checked(m, issues),
        issues.len() == 0,
        m.contains_key(k),
        m[k].initial_value is Some,
    ensures
        PropertyDefinition::spec_accepts(m[k], m[k].initial_value->0),
{
    assert(!seq_in_list(k, issues));
}

} // verus!
