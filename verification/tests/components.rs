use pixui::event_dispatch::{DispatchStep, EventDispatch};
use pixui::event_handler::ApplicationEventContext;
use pixui::type_map::TypeKey;
use pixui::entity::{EntityId, SliceId};
use pixui::component::Component;
use pixui::component::registry::{ComponentId, ComponentRegistry};
use pixui::components::button::{ButtonComponent, ButtonProps};
use pixui::components::label::{LabelComponent, LabelProps};
use pixui::draw::component_draw_system::{ComponentDescriptions, RenderPlan};
use pixui::error::PixuiError;
use pixui::source_file::SourceFile;

struct TestProperties {
    value: u32,
}

struct TestComponent;

impl Component for TestComponent {
    type Properties = TestProperties;
}

struct OtherTestComponent;

impl Component for OtherTestComponent {
    type Properties = TestProperties;
}

#[test]
fn register_stores_components_for_later_lookup() {
    let mut registry = ComponentRegistry::default();

    let first_id = registry.register::<TestComponent>();
    let second_id = registry.register::<OtherTestComponent>();

    assert!(registry.get(first_id).is_ok());
    assert!(registry.get(second_id).is_ok());
}

#[test]
fn register_overwrites_duplicate_component_types_without_changing_the_id() {
    let mut registry = ComponentRegistry::default();

    let first_id = registry.register::<TestComponent>();
    let second_id = registry.register::<TestComponent>();

    assert_eq!(first_id.index(), second_id.index());
    assert!(registry.get(second_id).is_ok());
}

#[test]
fn get_returns_context_for_unknown_component_ids() {
    let registry = ComponentRegistry::default();
    let error = match registry.get(ComponentId::from_index(99)) {
        Ok(_) => panic!("missing component should fail"),
        Err(error) => error,
    };

    assert!(error.to_test_string().contains("no such component: 99"));
}

#[test]
fn distinct_component_kinds_get_consecutive_ids() {
    let mut registry = ComponentRegistry::new();
    let button = registry.register::<ButtonComponent>();
    let label = registry.register::<LabelComponent>();
    let button_again = registry.register::<ButtonComponent>();
    assert_eq!(button.index(), 0);
    assert_eq!(label.index(), 1);
    assert_eq!(button_again.index(), 0);
    assert!(registry.get(ComponentId::from_index(2)).is_err());
    let _ = TestProperties { value: 1 }.value;
}

#[test]
fn component_properties_keep_their_label() {
    assert_eq!(ButtonProps::new(String::from("Save")).label_text(), "Save");
    assert_eq!(LabelProps::new(String::from("Title")).label_text(), "Title");
}

fn names(names: &[&str]) -> Vec<String> {
    names.iter().map(|name| name.to_string()).collect()
}

/// The renderers a plan calls, in order.
fn rendered(plan: &RenderPlan, out: &mut Vec<String>) {
    match plan {
        RenderPlan::Render(name) => out.push(name.clone()),
        RenderPlan::Group(parts) => {
            for part in parts {
                rendered(part, out);
            }
        }
        RenderPlan::Fail(_) => {}
    }
}

/// The error a plan stops with, if any.
fn failure(plan: &RenderPlan) -> Option<&PixuiError> {
    match plan {
        RenderPlan::Render(_) => None,
        RenderPlan::Group(parts) => parts.last().and_then(failure),
        RenderPlan::Fail(error) => Some(error),
    }
}

fn leaves(plan: &RenderPlan) -> Vec<String> {
    let mut out = Vec::new();
    rendered(plan, &mut out);
    out
}

#[test]
fn register_component_renderer_renders_named_components() {
    let descriptions = ComponentDescriptions::default();
    let plan = descriptions.plan_render(&names(&["CounterApp"]), "CounterApp");

    assert!(matches!(&plan, RenderPlan::Render(name) if name == "CounterApp"));
}

#[test]
fn render_component_returns_context_for_unknown_component_names() {
    let descriptions = ComponentDescriptions::default();
    let plan = descriptions.plan_render(&Vec::new(), "Missing");

    let error = failure(&plan).expect("missing component should fail");
    assert!(
        error
            .to_test_string()
            .contains("no such component renderer: Missing")
    );
}

#[test]
fn register_component_description_renders_composite_components() {
    let mut descriptions = ComponentDescriptions::default();
    descriptions
        .register_component_description("App", "<Stack><Label /><Label /></Stack>")
        .unwrap();

    let plan = descriptions.plan_render(&names(&["Label"]), "App");

    assert!(failure(&plan).is_none());
    assert_eq!(leaves(&plan), names(&["Label", "Label"]));
}

#[test]
fn register_component_description_supports_custom_components() {
    let mut descriptions = ComponentDescriptions::default();
    descriptions
        .register_component_description("Header", "<Stack><Label /></Stack>")
        .unwrap();
    descriptions
        .register_component_description("App", "<Root><Header /><Header /></Root>")
        .unwrap();

    let plan = descriptions.plan_render(&names(&["Label"]), "App");

    assert!(failure(&plan).is_none());
    assert_eq!(leaves(&plan).len(), 2);
}

#[test]
fn render_component_rejects_recursive_custom_components() {
    let mut descriptions = ComponentDescriptions::default();
    descriptions
        .register_component_description("Loop", "<Root><Loop /></Root>")
        .unwrap();

    let plan = descriptions.plan_render(&Vec::new(), "Loop");

    let error = failure(&plan).expect("a cycle should fail");
    assert!(
        error
            .to_test_string()
            .contains("cyclic ui_description component reference: Loop -> Loop")
    );
}

#[test]
fn longer_cycles_name_every_component_on_the_way() {
    let mut descriptions = ComponentDescriptions::new();
    descriptions.register_component_description("A", "<Root><B /></Root>").unwrap();
    descriptions.register_component_description("B", "<C />").unwrap();
    descriptions.register_component_description("C", "<Root><A /></Root>").unwrap();

    let plan = descriptions.plan_render(&Vec::new(), "A");

    let error = failure(&plan).expect("a cycle should fail");
    assert!(
        error
            .to_test_string()
            .contains("cyclic ui_description component reference: A -> B -> C -> A")
    );
}

#[test]
fn properties_in_descriptions_are_rejected() {
    let mut descriptions = ComponentDescriptions::new();
    descriptions
        .register_component_description("App", r#"<Stack><Label text="x" /></Stack>"#)
        .unwrap();

    let plan = descriptions.plan_render(&names(&["Label"]), "App");

    let error = failure(&plan).expect("properties should fail");
    assert!(
        error
            .to_test_string()
            .contains("ui_description properties are not supported yet for component `Label`")
    );
}

#[test]
fn leaf_components_cannot_have_children() {
    let mut descriptions = ComponentDescriptions::new();
    descriptions
        .register_component_description("App", "<Label><Label /></Label>")
        .unwrap();

    let plan = descriptions.plan_render(&names(&["Label"]), "App");

    let error = failure(&plan).expect("children of a leaf should fail");
    assert!(
        error
            .to_test_string()
            .contains("leaf component `Label` cannot have children in ui_description")
    );
}

#[test]
fn custom_components_cannot_have_inline_children() {
    let mut descriptions = ComponentDescriptions::new();
    descriptions.register_component_description("Header", "<Stack />").unwrap();
    descriptions
        .register_component_description("App", "<Root><Header><Stack /></Header></Root>")
        .unwrap();

    let plan = descriptions.plan_render(&Vec::new(), "App");

    let error = failure(&plan).expect("inline children should fail");
    assert!(
        error
            .to_test_string()
            .contains("custom component `Header` cannot have inline children in ui_description yet")
    );
}

#[test]
fn drawing_stops_at_the_first_failing_part() {
    let mut descriptions = ComponentDescriptions::new();
    descriptions
        .register_component_description("App", "<Root><Label /><Missing><Label /></Missing><Other x=\"1\" /><Label /></Root>")
        .unwrap();

    let plan = descriptions.plan_render(&names(&["Label", "Missing"]), "App");

    assert_eq!(leaves(&plan), names(&["Label"]));
    match &plan {
        RenderPlan::Group(parts) => {
            assert_eq!(parts.len(), 2);
            assert!(!parts[0].fails());
            assert!(parts[1].fails());
        }
        _ => panic!("a described component is drawn as a group"),
    }
}

#[test]
fn renderers_take_precedence_over_descriptions() {
    let mut descriptions = ComponentDescriptions::new();
    descriptions.register_component_description("Label", "<Stack />").unwrap();
    let plan = descriptions.plan_render(&names(&["Label"]), "Label");
    assert!(matches!(&plan, RenderPlan::Render(name) if name == "Label"));
}

#[test]
fn registering_again_replaces_the_description() {
    let mut descriptions = ComponentDescriptions::new();
    descriptions.register_component_description("App", "<Stack><A /></Stack>").unwrap();
    descriptions.register_component_description("App", "<Stack><B /><B /></Stack>").unwrap();

    let plan = descriptions.plan_render(&names(&["A", "B"]), "App");

    assert_eq!(leaves(&plan), names(&["B", "B"]));
}

#[test]
fn invalid_descriptions_are_not_registered() {
    let mut descriptions = ComponentDescriptions::new();
    let error = descriptions
        .register_component_description("App", "<Stack></Button>")
        .unwrap_err();
    assert!(error.to_test_string().contains("Mismatched closing tag"));

    let plan = descriptions.plan_render(&Vec::new(), "App");
    let error = failure(&plan).expect("nothing was registered");
    assert!(error.to_test_string().contains("no such component renderer: App"));
}

#[test]
fn descriptions_can_come_from_source_files() {
    let mut descriptions = ComponentDescriptions::new();
    let file = SourceFile::new("views/app.pixui", "<Stack><Label /></Stack>");
    descriptions
        .register_component_description_source_file("App", &file)
        .unwrap();

    let plan = descriptions.plan_render(&names(&["Label"]), "App");
    assert_eq!(leaves(&plan), names(&["Label"]));

    let broken = SourceFile::new("views/broken.pixui", "<Stack");
    assert!(descriptions
        .register_component_description_source_file("Broken", &broken)
        .is_err());
}

#[test]
fn entity_ids_keep_their_slice_and_key() {
    let slice = SliceId::from_key(TypeKey::<u8>::from_index(3));
    assert_eq!(slice.index(), 3);
    let id = EntityId::new(slice, 42);
    assert_eq!(id.slice_id().index(), 3);
    assert_eq!(id.key_data(), 42);
}

#[test]
fn application_event_contexts_carry_the_event() {
    let mut context = ApplicationEventContext { event: 1 };
    context.event += 1;
    assert_eq!(context.event, 2);
}

#[test]
fn event_handlers_run_in_order_until_one_fails() {
    let mut dispatch = EventDispatch::new(3);
    let mut called = Vec::new();
    let result = loop {
        match dispatch.step() {
            DispatchStep::Call(index) => {
                called.push(index);
                let outcome = if index == 1 { Err(PixuiError::message("handler failed")) } else { Ok(()) };
                dispatch.handled(outcome);
            }
            DispatchStep::Finish(result) => break result,
        }
    };
    assert_eq!(called, vec![0, 1]);
    assert!(result.unwrap_err().to_test_string().contains("handler failed"));
}

#[test]
fn event_dispatch_finishes_when_every_handler_succeeded() {
    let mut dispatch = EventDispatch::new(2);
    let mut called = Vec::new();
    loop {
        match dispatch.step() {
            DispatchStep::Call(index) => {
                called.push(index);
                dispatch.handled(Ok(()));
            }
            DispatchStep::Finish(result) => {
                assert!(result.is_ok());
                break;
            }
        }
    }
    assert_eq!(called, vec![0, 1]);
    assert!(matches!(EventDispatch::new(0).step(), DispatchStep::Finish(Ok(()))));
}
