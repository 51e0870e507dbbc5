use command_palette::command::Action;
use command_palette::intercept::{
    CommandInterceptResult, CommandPaletteInterceptor, InterceptorSlot,
};

type Interceptor = Box<dyn Fn(&str, &u32) -> Option<CommandInterceptResult>>;

fn answering(prefix: &'static str) -> CommandPaletteInterceptor<Interceptor> {
    CommandPaletteInterceptor(Box::new(move |query: &str, context: &u32| {
        if query.starts_with(':') {
            Some(CommandInterceptResult {
                action: Action {
                    id: 1,
                    type_id: 2,
                    name: "vim::Command".to_string(),
                },
                string: format!("{prefix}{query}{context}"),
                positions: vec![0],
            })
        } else {
            None
        }
    }))
}

#[test]
fn an_empty_slot_intercepts_nothing() {
    let slot: InterceptorSlot<Interceptor> = InterceptorSlot::new();
    assert!(!slot.is_registered());
    assert_eq!(slot.intercept(":w", &7), None);
    assert_eq!(slot.intercept("", &7), None);
}

#[test]
fn a_registered_interceptor_is_asked_with_query_and_context() {
    let mut slot: InterceptorSlot<Interceptor> = InterceptorSlot::new();
    assert!(slot.register(answering("first")).is_none());
    assert!(slot.is_registered());
    let hit = slot.intercept(":w", &7).unwrap();
    assert_eq!(hit.string, "first:w7");
    assert_eq!(hit.positions, vec![0]);
    assert_eq!(hit.action.type_id, 2);
    assert_eq!(slot.intercept("w", &7), None);
}

#[test]
fn the_last_registration_wins() {
    let mut slot: InterceptorSlot<Interceptor> = InterceptorSlot::new();
    slot.register(answering("first"));
    let replaced = slot.register(answering("second")).unwrap();
    assert_eq!((replaced.0)(":q", &1).unwrap().string, "first:q1");
    assert_eq!(slot.intercept(":q", &1).unwrap().string, "second:q1");
    let removed = slot.unregister().unwrap();
    assert_eq!((removed.0)(":q", &1).unwrap().string, "second:q1");
    assert!(!slot.is_registered());
    assert_eq!(slot.intercept(":q", &1), None);
    assert!(slot.unregister().is_none());
}
