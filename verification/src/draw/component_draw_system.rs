//! Custom components described in the UI description language, and the
//! plan by which a named component is drawn.
//!
//! A component is drawn either by a renderer registered under its name, or
//! from its description: a tree of elements whose leaves name renderers or
//! other described components. Planning walks that tree, detects cycles
//! between described components and reports the first structural error;
//! carrying the plan out (calling the renderers and gathering their draw
//! lists) is left to the caller.
use crate::error::{ErrorKindView, PixuiError, PixuiErrorView, root_error};
use crate::lines::{join_strings, joined, texts};
use crate::source_file::SourceFile;
use crate::source_file::SourceFileView;
use crate::text::{bytes_of, push_str};
use crate::ui_description::ast::ui_element::{UiElement, UiElementView};
use crate::ui_description::lexer::lexable;
use crate::ui_description::parser::{parse_file_result, parse_ui_description, parse_ui_description_source_file};
use vstd::prelude::*;
use vstd::string::StringExecFns;

verus! {

/// The size of an element tree: each element counts one, and an empty
/// list of children counts one too.
pub open spec fn element_size(e: UiElementView) -> nat
    decreases e,
{
    1 + children_size(e.children)
}

/// The size of a list of element trees.
pub open spec fn children_size(cs: Seq<UiElementView>) -> nat
    decreases cs,
{
    if cs.len() == 0 {
        1
    } else {
        element_size(cs[0]) + children_size(cs.drop_first())
    }
}

/// How a component is drawn.
pub enum RenderPlanView {
    /// By the renderer registered under the name.
    Render(Seq<char>),
    /// As a fresh draw list covering the viewport, to which what each part
    /// draws is appended in order.
    Group(Seq<RenderPlanView>),
    /// Drawing stops with this error.
    Fail(PixuiErrorView),
}

/// Whether carrying out the plan stops at an error.
pub open spec fn plan_fails(p: RenderPlanView) -> bool
    decreases p,
{
    match p {
        RenderPlanView::Render(_) => false,
        RenderPlanView::Group(parts) => parts.len() > 0 && plan_fails(parts[parts.len() - 1]),
        RenderPlanView::Fail(_) => true,
    }
}

/// The error that carries only a message.
pub open spec fn message_error(message: Seq<char>) -> PixuiErrorView {
    root_error(ErrorKindView::Message(message), None)
}

/// The components being expanded, innermost last: no name twice, and each
/// a described component.
pub open spec fn stack_ok(names: Seq<Seq<char>>, stack: Seq<Seq<char>>) -> bool {
    &&& stack.no_duplicates()
    &&& forall|k: int| 0 <= k < stack.len() ==> names.contains(#[trigger] stack[k])
}

/// Where the description of `name` is stored.
pub open spec fn description_index(names: Seq<Seq<char>>, name: Seq<char>) -> int {
    choose|i: int| 0 <= i < names.len() && names[i] == name
}

/// Expanding one more described component keeps the stack within the
/// described names.
pub proof fn lemma_stack_grows(names: Seq<Seq<char>>, stack: Seq<Seq<char>>, name: Seq<char>)
    requires
        stack_ok(names, stack),
        names.contains(name),
        !stack.contains(name),
    ensures
        stack_ok(names, stack.push(name)),
        stack.len() + 1 <= names.len(),
{
    let grown = stack.push(name);
    assert forall|k: int| 0 <= k < grown.len() implies names.contains(#[trigger] grown[k]) by {
        if k < stack.len() {
            assert(grown[k] == stack[k]);
        }
    }
    assert forall|a: int, b: int| 0 <= a < grown.len() && 0 <= b < grown.len() && a != b implies grown[a]
        != grown[b] by {
        if a == stack.len() {
            assert(stack.contains(grown[b]));
        } else if b == stack.len() {
            assert(stack.contains(grown[a]));
        }
    }
    grown.unique_seq_to_set();
    names.lemma_cardinality_of_set();
    assert(grown.to_set().subset_of(names.to_set()));
    vstd::set_lib::lemma_len_subset(grown.to_set(), names.to_set());
}

/// A list of element trees is larger than its first tree.
pub proof fn lemma_children_size(cs: Seq<UiElementView>, i: int)
    requires
        0 <= i < cs.len(),
    ensures
        children_size(cs.subrange(i, cs.len() as int)) == element_size(cs[i]) + children_size(
            cs.subrange(i + 1, cs.len() as int),
        ),
        children_size(cs.subrange(i + 1, cs.len() as int)) >= 1,
{
    let rest = cs.subrange(i, cs.len() as int);
    assert(rest.drop_first() =~= cs.subrange(i + 1, cs.len() as int));
    assert(rest[0] == cs[i]);
    let after = cs.subrange(i + 1, cs.len() as int);
    if after.len() > 0 {
        assert(children_size(after) == element_size(after[0]) + children_size(after.drop_first()));
    }
}

/// The plan for drawing the component `name`, with `stack` the described
/// components being expanded.
pub open spec fn plan_by_name(
    renderers: Seq<Seq<char>>,
    names: Seq<Seq<char>>,
    elements: Seq<UiElementView>,
    stack: Seq<Seq<char>>,
    name: Seq<char>,
) -> RenderPlanView
    decreases names.len() - stack.len(), 0int,
    when stack_ok(names, stack)
{
    if renderers.contains(name) {
        RenderPlanView::Render(name)
    } else if stack.contains(name) {
        RenderPlanView::Fail(
            message_error(
                "cyclic ui_description component reference: "@ + joined(stack.push(name), " -> "@),
            ),
        )
    } else if !names.contains(name) {
        RenderPlanView::Fail(message_error("no such component renderer: "@ + name))
    } else {
        proof {
            lemma_stack_grows(names, stack, name);
        }
        plan_element(renderers, names, elements, stack.push(name), elements[description_index(names, name)])
    }
}

/// The plan for drawing one element of a description.
pub open spec fn plan_element(
    renderers: Seq<Seq<char>>,
    names: Seq<Seq<char>>,
    elements: Seq<UiElementView>,
    stack: Seq<Seq<char>>,
    e: UiElementView,
) -> RenderPlanView
    decreases names.len() - stack.len(), element_size(e),
    when stack_ok(names, stack)
{
    if e.properties.len() > 0 {
        RenderPlanView::Fail(
            message_error(
                "ui_description properties are not supported yet for component `"@ + e.tag_name + "`"@,
            ),
        )
    } else if renderers.contains(e.tag_name) {
        if e.children.len() > 0 {
            RenderPlanView::Fail(
                message_error(
                    "leaf component `"@ + e.tag_name + "` cannot have children in ui_description"@,
                ),
            )
        } else {
            plan_by_name(renderers, names, elements, stack, e.tag_name)
        }
    } else if names.contains(e.tag_name) {
        if e.children.len() > 0 {
            RenderPlanView::Fail(
                message_error(
                    "custom component `"@ + e.tag_name
                        + "` cannot have inline children in ui_description yet"@,
                ),
            )
        } else {
            plan_by_name(renderers, names, elements, stack, e.tag_name)
        }
    } else {
        proof {
            assert(e.children.subrange(0, e.children.len() as int) =~= e.children);
        }
        RenderPlanView::Group(plan_children(renderers, names, elements, stack, e.children, 0))
    }
}

/// The plans for the children from index `i` on, stopping after the
/// first one that fails.
pub open spec fn plan_children(
    renderers: Seq<Seq<char>>,
    names: Seq<Seq<char>>,
    elements: Seq<UiElementView>,
    stack: Seq<Seq<char>>,
    cs: Seq<UiElementView>,
    i: int,
) -> Seq<RenderPlanView>
    decreases names.len() - stack.len(), children_size(cs.subrange(i, cs.len() as int)),
    when stack_ok(names, stack) && 0 <= i <= cs.len()
{
    if i >= cs.len() {
        Seq::empty()
    } else {
        proof {
            lemma_children_size(cs, i);
        }
        let p = plan_element(renderers, names, elements, stack, cs[i]);
        if plan_fails(p) {
            seq![p]
        } else {
            seq![p] + plan_children(renderers, names, elements, stack, cs, i + 1)
        }
    }
}

/// The plan for drawing the component `name` given the names of the
/// registered renderers and the described components.
pub open spec fn planned_render(
    renderers: Seq<Seq<char>>,
    names: Seq<Seq<char>>,
    elements: Seq<UiElementView>,
    name: Seq<char>,
) -> RenderPlanView {
    plan_by_name(renderers, names, elements, Seq::empty(), name)
}

/// A plan that draws only with the given renderers, and whose groups stop
/// at their first failing part.
pub open spec fn sound_plan(p: RenderPlanView, renderers: Seq<Seq<char>>) -> bool
    decreases p,
{
    match p {
        RenderPlanView::Render(name) => renderers.contains(name),
        RenderPlanView::Group(parts) => {
            &&& forall|k: int| 0 <= k < parts.len() ==> sound_plan(#[trigger] parts[k], renderers)
            &&& forall|k: int| 0 <= k < parts.len() - 1 ==> !plan_fails(#[trigger] parts[k])
        },
        RenderPlanView::Fail(_) => true,
    }
}

/// Drawing a component by name uses only registered renderers and stops at
/// the first error.
pub proof fn law_by_name_is_sound(
    renderers: Seq<Seq<char>>,
    names: Seq<Seq<char>>,
    elements: Seq<UiElementView>,
    stack: Seq<Seq<char>>,
    name: Seq<char>,
)
    requires
        stack_ok(names, stack),
    ensures
        sound_plan(plan_by_name(renderers, names, elements, stack, name), renderers),
    decreases names.len() - stack.len(), 0int,
{
    if !renderers.contains(name) && !stack.contains(name) && names.contains(name) {
        lemma_stack_grows(names, stack, name);
        law_element_is_sound(renderers, names, elements, stack.push(name), elements[description_index(names, name)]);
    }
}

/// Drawing an element uses only registered renderers and stops at the
/// first error.
pub proof fn law_element_is_sound(
    renderers: Seq<Seq<char>>,
    names: Seq<Seq<char>>,
    elements: Seq<UiElementView>,
    stack: Seq<Seq<char>>,
    e: UiElementView,
)
    requires
        stack_ok(names, stack),
    ensures
        sound_plan(plan_element(renderers, names, elements, stack, e), renderers),
    decreases names.len() - stack.len(), element_size(e),
{
    if e.properties.len() > 0 {
    } else if renderers.contains(e.tag_name) || names.contains(e.tag_name) {
        if e.children.len() == 0 {
            law_by_name_is_sound(renderers, names, elements, stack, e.tag_name);
        }
    } else {
        assert(e.children.subrange(0, e.children.len() as int) =~= e.children);
        law_children_are_sound(renderers, names, elements, stack, e.children, 0);
        let parts = plan_children(renderers, names, elements, stack, e.children, 0);
        assert(plan_element(renderers, names, elements, stack, e) == RenderPlanView::Group(parts));
        assert(sound_plan(RenderPlanView::Group(parts), renderers));
    }
}

/// The parts planned for a list of children use only registered renderers,
/// and only the last of them can fail.
pub proof fn law_children_are_sound(
    renderers: Seq<Seq<char>>,
    names: Seq<Seq<char>>,
    elements: Seq<UiElementView>,
    stack: Seq<Seq<char>>,
    cs: Seq<UiElementView>,
    i: int,
)
    requires
        stack_ok(names, stack),
        0 <= i <= cs.len(),
    ensures
        ({
            let parts = plan_children(renderers, names, elements, stack, cs, i);
            &&& forall|k: int| 0 <= k < parts.len() ==> sound_plan(#[trigger] parts[k], renderers)
            &&& forall|k: int| 0 <= k < parts.len() - 1 ==> !plan_fails(#[trigger] parts[k])
        }),
    decreases names.len() - stack.len(), children_size(cs.subrange(i, cs.len() as int)),
{
    if i < cs.len() {
        lemma_children_size(cs, i);
        law_element_is_sound(renderers, names, elements, stack, cs[i]);
        let p = plan_element(renderers, names, elements, stack, cs[i]);
        if !plan_fails(p) {
            law_children_are_sound(renderers, names, elements, stack, cs, i + 1);
            let rest = plan_children(renderers, names, elements, stack, cs, i + 1);
            let parts = plan_children(renderers, names, elements, stack, cs, i);
            assert(parts == seq![p] + rest);
            assert forall|k: int| 0 <= k < parts.len() implies sound_plan(#[trigger] parts[k], renderers) by {
                if k > 0 {
                    assert(parts[k] == rest[k - 1]);
                }
            }
            assert forall|k: int| 0 <= k < parts.len() - 1 implies !plan_fails(#[trigger] parts[k]) by {
                if k > 0 {
                    assert(parts[k] == rest[k - 1]);
                }
            }
        }
    }
}

/// The parts planned for the children from `i` on follow the children in
/// document order: part `k` is the plan of child `i + k`. The parts stop at
/// the first child whose plan fails, and otherwise cover every child.
pub proof fn law_children_are_planned_in_order(
    renderers: Seq<Seq<char>>,
    names: Seq<Seq<char>>,
    elements: Seq<UiElementView>,
    stack: Seq<Seq<char>>,
    cs: Seq<UiElementView>,
    i: int,
)
    requires
        stack_ok(names, stack),
        0 <= i <= cs.len(),
    ensures
        ({
            let parts = plan_children(renderers, names, elements, stack, cs, i);
            &&& parts.len() <= cs.len() - i
            &&& forall|k: int|
                0 <= k < parts.len() ==> #[trigger] parts[k] == plan_element(renderers, names, elements, stack, cs[i + k])
            &&& forall|k: int| 0 <= k < parts.len() - 1 ==> !plan_fails(#[trigger] parts[k])
            &&& (parts.len() == cs.len() - i || plan_fails(parts[parts.len() - 1]))
        }),
    decreases cs.len() - i,
{
    if i < cs.len() {
        let p = plan_element(renderers, names, elements, stack, cs[i]);
        let parts = plan_children(renderers, names, elements, stack, cs, i);
        if !plan_fails(p) {
            law_children_are_planned_in_order(renderers, names, elements, stack, cs, i + 1);
            let rest = plan_children(renderers, names, elements, stack, cs, i + 1);
            assert(parts == seq![p] + rest);
            assert forall|k: int| 0 <= k < parts.len() implies #[trigger] parts[k] == plan_element(
                renderers,
                names,
                elements,
                stack,
                cs[i + k],
            ) by {
                if k > 0 {
                    assert(parts[k] == rest[k - 1]);
                    assert(i + 1 + (k - 1) == i + k);
                }
            }
            assert forall|k: int| 0 <= k < parts.len() - 1 implies !plan_fails(#[trigger] parts[k]) by {
                if k > 0 {
                    assert(parts[k] == rest[k - 1]);
                }
            }
            if rest.len() > 0 {
                assert(parts[parts.len() - 1] == rest[rest.len() - 1]);
            }
        } else {
            assert(parts == seq![p]);
        }
    }
}

/// A container whose children all plan without failing is drawn as a group
/// of its children's plans, in document order.
pub proof fn law_container_draws_children_in_order(
    renderers: Seq<Seq<char>>,
    names: Seq<Seq<char>>,
    elements: Seq<UiElementView>,
    stack: Seq<Seq<char>>,
    e: UiElementView,
)
    requires
        stack_ok(names, stack),
        e.properties.len() == 0,
        !renderers.contains(e.tag_name),
        !names.contains(e.tag_name),
        forall|k: int|
            0 <= k < e.children.len() ==> !plan_fails(
                #[trigger] plan_element(renderers, names, elements, stack, e.children[k]),
            ),
    ensures
        plan_element(renderers, names, elements, stack, e) == RenderPlanView::Group(
            Seq::new(e.children.len(), |k: int| plan_element(renderers, names, elements, stack, e.children[k])),
        ),
{
    law_children_are_planned_in_order(renderers, names, elements, stack, e.children, 0);
    let parts = plan_children(renderers, names, elements, stack, e.children, 0);
    if parts.len() < e.children.len() {
        assert(plan_fails(parts[parts.len() - 1]));
        assert(parts[parts.len() - 1] == plan_element(renderers, names, elements, stack, e.children[parts.len() - 1]));
    }
    assert(parts =~= Seq::new(
        e.children.len(),
        |k: int| plan_element(renderers, names, elements, stack, e.children[k]),
    ));
}

/// Every plan for drawing a component by name draws only with registered
/// renderers and stops at its first error.
pub proof fn law_planned_render_is_sound(
    renderers: Seq<Seq<char>>,
    names: Seq<Seq<char>>,
    elements: Seq<UiElementView>,
    name: Seq<char>,
)
    ensures
        sound_plan(planned_render(renderers, names, elements, name), renderers),
{
    law_by_name_is_sound(renderers, names, elements, Seq::empty(), name);
}

/// A plan for drawing a component; see [`RenderPlanView`].
#[derive(Debug)]
pub enum RenderPlan {
    /// Draw with the renderer registered under this name.
    Render(String),
    /// Draw a fresh draw list covering the viewport and append, in order,
    /// what each part draws.
    Group(Vec<RenderPlan>),
    /// Stop with this error.
    Fail(PixuiError),
}

/// The view of a plan and, recursively, of its parts.
pub open spec fn plan_view(p: RenderPlan) -> RenderPlanView
    decreases p,
{
    match p {
        RenderPlan::Render(name) => RenderPlanView::Render(name@),
        RenderPlan::Group(parts) => RenderPlanView::Group(
            Seq::new(
                parts@.len(),
                |i: int|
                    if 0 <= i < parts@.len() {
                        plan_view(parts@[i])
                    } else {
                        arbitrary()
                    },
            ),
        ),
        RenderPlan::Fail(error) => RenderPlanView::Fail(error@),
    }
}

impl View for RenderPlan {
    type V = RenderPlanView;

    open spec fn view(&self) -> RenderPlanView {
        plan_view(*self)
    }
}

/// The views of a sequence of plans.
pub open spec fn plans_view(plans: Seq<RenderPlan>) -> Seq<RenderPlanView> {
    plans.map_values(|p: RenderPlan| p@)
}

/// The views of a sequence of elements.
pub open spec fn element_views(elements: Seq<UiElement>) -> Seq<UiElementView> {
    elements.map_values(|e: UiElement| e@)
}

impl RenderPlan {
    /// Whether carrying out this plan stops at an error.
    pub fn fails(&self) -> (failed: bool)
        ensures
            failed == plan_fails(self@),
        decreases self,
    {
        match self {
            RenderPlan::Render(_) => false,
            RenderPlan::Group(parts) => {
                if parts.len() == 0 {
                    false
                } else {
                    let last = parts.len() - 1;
                    proof {
                        assert(decreases_to!(*self => parts@[last as int]));
                    }
                    parts[last].fails()
                }
            },
            RenderPlan::Fail(_) => true,
        }
    }
}

/// Whether one of the strings has the text of `s`.
fn contains_text(strings: &Vec<String>, s: &String) -> (found: bool)
    ensures
        found == texts(strings@).contains(s@),
{
    let mut i: usize = 0;
    while i < strings.len()
        invariant
            i <= strings@.len(),
            forall|k: int| 0 <= k < i ==> strings@[k]@ != s@,
        decreases strings@.len() - i,
    {
        if strings[i] == *s {
            assert(texts(strings@)[i as int] == s@);
            return true;
        }
        i = i + 1;
    }
    assert(!texts(strings@).contains(s@)) by {
        if texts(strings@).contains(s@) {
            let k = choose|k: int| 0 <= k < strings@.len() && texts(strings@)[k] == s@;
            assert(strings@[k]@ == s@);
        }
    }
    false
}

/// A copy of the strings.
fn copy_texts(strings: &Vec<String>) -> (copy: Vec<String>)
    ensures
        texts(copy@) == texts(strings@),
{
    let mut copy: Vec<String> = Vec::new();
    let mut i: usize = 0;
    while i < strings.len()
        invariant
            i <= strings@.len(),
            copy@.len() == i,
            forall|k: int| 0 <= k < i ==> #[trigger] copy@[k]@ == strings@[k]@,
        decreases strings@.len() - i,
    {
        let text = strings[i].clone();
        assert(text@ == strings@[i as int]@);
        copy.push(text);
        i = i + 1;
    }
    assert(texts(copy@) =~= texts(strings@));
    copy
}

/// Custom components registered by name, each with the parsed UI
/// description that draws it.
pub struct ComponentDescriptions {
    entries: Vec<(String, UiElement)>,
}

impl ComponentDescriptions {
    /// The registered names, in order of first registration.
    pub closed spec fn names(&self) -> Seq<Seq<char>> {
        self.entries@.map_values(|e: (String, UiElement)| e.0@)
    }

    /// The description registered under each name.
    pub closed spec fn elements(&self) -> Seq<UiElementView> {
        self.entries@.map_values(|e: (String, UiElement)| e.1@)
    }

    /// No name is registered twice.
    #[verifier::type_invariant]
    spec fn distinct_names(&self) -> bool {
        self.names().no_duplicates()
    }

    /// This registry is `before` with `element` registered under `name`:
    /// it replaces an earlier description of that name, or is added last.
    pub open spec fn registered(&self, before: Self, name: Seq<char>, element: UiElementView) -> bool {
        if before.names().contains(name) {
            &&& self.names() == before.names()
            &&& self.elements() == before.elements().update(description_index(before.names(), name), element)
        } else {
            &&& self.names() == before.names().push(name)
            &&& self.elements() == before.elements().push(element)
        }
    }

    /// Creates an empty registry.
    pub fn new() -> (descriptions: Self)
        ensures
            descriptions.names() == Seq::<Seq<char>>::empty(),
            descriptions.elements() == Seq::<UiElementView>::empty(),
    {
        let descriptions = ComponentDescriptions { entries: Vec::new() };
        assert(descriptions.names() =~= Seq::<Seq<char>>::empty());
        assert(descriptions.elements() =~= Seq::<UiElementView>::empty());
        descriptions
    }

    /// Where the description named `name` is stored.
    fn find(&self, name: &String) -> (index: Option<usize>)
        ensures
            self.names().no_duplicates(),
            self.names().len() == self.entries@.len(),
            self.elements().len() == self.entries@.len(),
            match index {
                Some(i) => i < self.entries@.len() && self.names()[i as int] == name@
                    && description_index(self.names(), name@) == i,
                None => !self.names().contains(name@),
            },
    {
        proof {
            use_type_invariant(self);
        }
        let mut i: usize = 0;
        while i < self.entries.len()
            invariant
                i <= self.entries@.len(),
                self.names().no_duplicates(),
                forall|k: int| 0 <= k < i ==> self.names()[k] != name@,
            decreases self.entries@.len() - i,
        {
            if self.entries[i].0 == *name {
                assert(self.names()[i as int] == name@);
                return Some(i);
            }
            i = i + 1;
        }
        proof {
            false_contains(self.names(), name@);
        }
        None
    }

    /// Stores `element` under `name`.
    fn insert(&mut self, name: String, element: UiElement)
        ensures
            final(self).registered(*old(self), name@, element@),
    {
        let ghost before = *self;
        let found = self.find(&name);
        let mut entries: Vec<(String, UiElement)> = Vec::new();
        std::mem::swap(&mut entries, &mut self.entries);
        let ghost name_view = name@;
        let ghost element_view = element@;
        match found {
            Some(index) => {
                entries.set(index, (name, element));
                proof {
                    assert(entries@.map_values(|e: (String, UiElement)| e.0@) =~= before.names());
                    assert(entries@.map_values(|e: (String, UiElement)| e.1@) =~= before.elements().update(
                        index as int,
                        element_view,
                    ));
                }
            },
            None => {
                entries.push((name, element));
                proof {
                    let names = entries@.map_values(|e: (String, UiElement)| e.0@);
                    assert(names =~= before.names().push(name_view));
                    assert(entries@.map_values(|e: (String, UiElement)| e.1@) =~= before.elements().push(
                        element_view,
                    ));
                    assert forall|a: int, b: int| 0 <= a < names.len() && 0 <= b < names.len() && a != b
                        implies names[a] != names[b] by {
                        if a == before.names().len() {
                            assert(before.names().contains(names[b]));
                        } else if b == before.names().len() {
                            assert(before.names().contains(names[a]));
                        }
                    }
                }
            },
        }
        self.entries = entries;
    }
}

impl Default for ComponentDescriptions {
    fn default() -> (descriptions: Self)
        ensures
            descriptions.names() == Seq::<Seq<char>>::empty(),
            descriptions.elements() == Seq::<UiElementView>::empty(),
    {
        ComponentDescriptions::new()
    }
}

impl ComponentDescriptions {
    /// Registers a custom component backed by a UI description held in a
    /// string; on a lexing or parsing error nothing is registered.
    pub fn register_component_description(&mut self, component_name: &str, ui_description: &str) -> (result: Result<(), PixuiError>)
        requires
            bytes_of(ui_description).len() < usize::MAX,
        ensures
            match (result, parse_file_result(SourceFileView { path: "<ui_description>"@, source: ui_description@ })) {
                (Ok(()), Ok(element)) => final(self).registered(*old(self), component_name@, element),
                (Err(error), Err(expected)) => error@ == expected && final(self).names() == old(self).names()
                    && final(self).elements() == old(self).elements(),
                _ => false,
            },
    {
        match parse_ui_description(ui_description) {
            Ok(parsed) => {
                self.insert(String::from_str(component_name), parsed);
                Ok(())
            },
            Err(error) => Err(error),
        }
    }

    /// Registers a custom component backed by a source file; on a lexing or
    /// parsing error nothing is registered.
    pub fn register_component_description_source_file(&mut self, component_name: &str, source_file: &SourceFile) -> (result: Result<(), PixuiError>)
        requires
            lexable(source_file@),
        ensures
            match (result, parse_file_result(source_file@)) {
                (Ok(()), Ok(element)) => final(self).registered(*old(self), component_name@, element),
                (Err(error), Err(expected)) => error@ == expected && final(self).names() == old(self).names()
                    && final(self).elements() == old(self).elements(),
                _ => false,
            },
    {
        match parse_ui_description_source_file(source_file) {
            Ok(parsed) => {
                self.insert(String::from_str(component_name), parsed);
                Ok(())
            },
            Err(error) => Err(error),
        }
    }

    /// The plan for drawing the component `component_name`, given the names
    /// under which renderers are registered.
    pub fn plan_render(&self, renderer_names: &Vec<String>, component_name: &str) -> (plan: RenderPlan)
        ensures
            plan@ == planned_render(texts(renderer_names@), self.names(), self.elements(), component_name@),
    {
        proof {
            use_type_invariant(self);
        }
        let mut stack: Vec<String> = Vec::new();
        assert(stack_ok(self.names(), texts(stack@)));
        assert(texts(stack@) =~= Seq::<Seq<char>>::empty());
        self.plan_by_name(renderer_names, &mut stack, String::from_str(component_name))
    }

    fn plan_by_name(&self, renderers: &Vec<String>, stack: &mut Vec<String>, name: String) -> (plan: RenderPlan)
        requires
            self.names().no_duplicates(),
            stack_ok(self.names(), texts(old(stack)@)),
        ensures
            plan@ == plan_by_name(texts(renderers@), self.names(), self.elements(), texts(old(stack)@), name@),
            final(stack)@ == old(stack)@,
        decreases self.names().len() - old(stack)@.len(), 0int,
    {
        if contains_text(renderers, &name) {
            return RenderPlan::Render(name);
        }
        if contains_text(stack, &name) {
            let ghost name_view = name@;
            let mut path = copy_texts(stack);
            path.push(name);
            assert(path@.map_values(|p: String| p@) =~= texts(stack@).push(name_view));
            let cycle = join_strings(&path, " -> ");
            let mut message = String::from_str("cyclic ui_description component reference: ");
            push_str(&mut message, cycle.as_str());
            return RenderPlan::Fail(PixuiError::message_string(message));
        }
        match self.find(&name) {
            None => {
                let mut message = String::from_str("no such component renderer: ");
                push_str(&mut message, name.as_str());
                RenderPlan::Fail(PixuiError::message_string(message))
            },
            Some(index) => {
                let ghost name_view = name@;
                let ghost before = stack@;
                proof {
                    lemma_stack_grows(self.names(), texts(stack@), name@);
                }
                stack.push(name);
                assert(texts(stack@) =~= texts(before).push(name_view));
                let plan = self.plan_element(renderers, stack, &self.entries[index].1);
                stack.pop();
                assert(stack@ =~= before);
                plan
            },
        }
    }

    fn plan_element(&self, renderers: &Vec<String>, stack: &mut Vec<String>, element: &UiElement) -> (plan: RenderPlan)
        requires
            self.names().no_duplicates(),
            stack_ok(self.names(), texts(old(stack)@)),
        ensures
            plan@ == plan_element(texts(renderers@), self.names(), self.elements(), texts(old(stack)@), element@),
            final(stack)@ == old(stack)@,
        decreases self.names().len() - old(stack)@.len(), element_size(element@),
    {
        if element.properties.len() > 0 {
            let mut message = String::from_str("ui_description properties are not supported yet for component `");
            push_str(&mut message, element.tag_name.as_str());
            push_str(&mut message, "`");
            return RenderPlan::Fail(PixuiError::message_string(message));
        }
        let tag = element.tag_name.clone();
        if contains_text(renderers, &tag) {
            if element.children.len() > 0 {
                let mut message = String::from_str("leaf component `");
                push_str(&mut message, tag.as_str());
                push_str(&mut message, "` cannot have children in ui_description");
                return RenderPlan::Fail(PixuiError::message_string(message));
            }
            return self.plan_by_name(renderers, stack, tag);
        }
        if self.find(&tag).is_some() {
            if element.children.len() > 0 {
                let mut message = String::from_str("custom component `");
                push_str(&mut message, tag.as_str());
                push_str(&mut message, "` cannot have inline children in ui_description yet");
                return RenderPlan::Fail(PixuiError::message_string(message));
            }
            return self.plan_by_name(renderers, stack, tag);
        }
        assert(element_views(element.children@) =~= element@.children);
        assert(element_views(element.children@).subrange(0, element.children@.len() as int) =~= element@.children);
        let parts = self.plan_children(renderers, stack, &element.children, 0);
        let plan = RenderPlan::Group(parts);
        assert(plan_view(plan) == RenderPlanView::Group(plans_view(parts@))) by {
            if let RenderPlanView::Group(viewed) = plan_view(plan) {
                assert(viewed =~= plans_view(parts@));
            }
        }
        plan
    }

    fn plan_children(&self, renderers: &Vec<String>, stack: &mut Vec<String>, children: &Vec<UiElement>, i: usize) -> (parts: Vec<RenderPlan>)
        requires
            self.names().no_duplicates(),
            stack_ok(self.names(), texts(old(stack)@)),
            i <= children@.len(),
        ensures
            plans_view(parts@) == plan_children(
                texts(renderers@),
                self.names(),
                self.elements(),
                texts(old(stack)@),
                element_views(children@),
                i as int,
            ),
            final(stack)@ == old(stack)@,
        decreases self.names().len() - old(stack)@.len(), children_size(element_views(children@).subrange(i as int, children@.len() as int)),
    {
        if i >= children.len() {
            let parts: Vec<RenderPlan> = Vec::new();
            assert(plans_view(parts@) =~= Seq::<RenderPlanView>::empty());
            return parts;
        }
        proof {
            lemma_children_size(element_views(children@), i as int);
        }
        let part = self.plan_element(renderers, stack, &children[i]);
        if part.fails() {
            let mut parts: Vec<RenderPlan> = Vec::new();
            parts.push(part);
            assert(plans_view(parts@) =~= seq![part@]);
            parts
        } else {
            let mut parts = self.plan_children(renderers, stack, children, i + 1);
            let ghost rest = parts@;
            parts.insert(0, part);
            assert(plans_view(parts@) =~= seq![part@] + plans_view(rest));
            parts
        }
    }
}

/// A component registered with a description, and not drawn by a renderer
/// of the same name, is drawn from that description.
pub proof fn law_registered_description_is_drawn(
    before: ComponentDescriptions,
    after: ComponentDescriptions,
    renderers: Seq<Seq<char>>,
    name: Seq<char>,
    element: UiElementView,
)
    requires
        before.names().no_duplicates(),
        after.registered(before, name, element),
        !renderers.contains(name),
    ensures
        planned_render(renderers, after.names(), after.elements(), name) == plan_element(
            renderers,
            after.names(),
            after.elements(),
            seq![name],
            element,
        ),
{
    let names = after.names();
    if before.names().contains(name) {
        let i = description_index(before.names(), name);
        assert(0 <= i < before.names().len() && before.names()[i] == name);
        assert(after.elements()[i] == element);
    } else {
        let n = before.names().len() as int;
        assert forall|a: int, b: int| 0 <= a < names.len() && 0 <= b < names.len() && a != b implies names[a]
            != names[b] by {
            if a == n {
                assert(before.names().contains(names[b]));
            } else if b == n {
                assert(before.names().contains(names[a]));
            }
        }
        assert(names[n] == name);
        let i = description_index(names, name);
        assert(0 <= i < names.len() && names[i] == name);
        assert(i == n);
        assert(after.elements()[n] == element);
    }
    assert(names.contains(name));
    assert(Seq::<Seq<char>>::empty().push(name) =~= seq![name]);
    assert(stack_ok(names, seq![name]));
}

/// A name that no position holds is not contained.
proof fn false_contains(names: Seq<Seq<char>>, name: Seq<char>)
    requires
        forall|k: int| 0 <= k < names.len() ==> names[k] != name,
    ensures
        !names.contains(name),
{
}

} // verus!
