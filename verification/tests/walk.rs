use lib::fs::Walk;
use lib::gx2::{attribute_indices, shader_attributes, FieldAttrs, GfxCall, RenderContext};
use lib::path::PathBuf;

#[test]
fn walk_of_a_file_finds_nothing() {
    let mut w = Walk::new("/file.txt", false);
    assert!(w.next_dir().is_none());
    assert!(w.into_found().is_empty());
}

#[test]
fn walk_visits_depth_first() {
    let mut w = Walk::new("/root", true);
    let root = w.next_dir().unwrap();
    assert_eq!(root.as_str(), "/root");
    w.visit(&root, vec![(String::from("a"), true), (String::from("f.txt"), false), (String::from("b"), true)]);
    // the directory added last is read first
    let b = w.next_dir().unwrap();
    assert_eq!(b.as_str(), "/root/b");
    w.visit(&b, vec![(String::from("g"), false)]);
    let a = w.next_dir().unwrap();
    assert_eq!(a.as_str(), "/root/a");
    w.visit(&a, vec![]);
    assert!(w.next_dir().is_none());
    let found: Vec<String> = w.into_found().into_iter().map(PathBuf::into_string).collect();
    assert_eq!(found, vec!["/root/a", "/root/f.txt", "/root/b", "/root/b/g"]);
}

#[test]
fn frame_calls() {
    let ctx = RenderContext::new();
    let ready = ctx.ready();
    let (tv, calls) = ready.tv();
    assert_eq!(calls, vec![GfxCall::BeginRenderTv]);
    let (drc, calls) = tv.drc();
    assert_eq!(calls, vec![GfxCall::FinishRenderTv, GfxCall::BeginRenderDrc]);
    assert_eq!(drc.finish(), vec![GfxCall::FinishRenderDrc, GfxCall::FinishRender]);
    let (drc, calls) = ctx.ready().drc();
    assert_eq!(calls, vec![GfxCall::BeginRenderDrc]);
    let (tv, calls) = drc.tv();
    assert_eq!(calls, vec![GfxCall::FinishRenderDrc, GfxCall::BeginRenderTv]);
    assert_eq!(tv.finish(), vec![GfxCall::FinishRenderTv, GfxCall::FinishRender]);
}

#[test]
fn shader_attribute_indices_count_on() {
    assert_eq!(attribute_indices(&vec![]), Vec::<u32>::new());
    assert_eq!(attribute_indices(&vec![None, None, None]), vec![0, 1, 2]);
    assert_eq!(
        attribute_indices(&vec![None, Some(5), None, Some(1), None]),
        vec![0, 5, 6, 1, 2]
    );
}

fn field(name: &str, is_attribute: bool, rename: Option<&str>, index: Option<u32>, offset: Option<u32>) -> FieldAttrs {
    FieldAttrs {
        field: name.to_string(),
        is_attribute,
        name: rename.map(|n| n.to_string()),
        index,
        offset,
    }
}

#[test]
fn shader_attributes_take_names_indices_and_offsets() {
    let fields = vec![
        field("position", true, None, None, None),
        field("colour", true, Some("aColor"), None, Some(12)),
        field("uv", true, None, Some(4), None),
        field("normal", true, Some("aNormal"), None, Some(8)),
    ];
    assert_eq!(
        shader_attributes(&fields),
        Ok(vec![
            ("position".to_string(), 0, 0),
            ("aColor".to_string(), 1, 12),
            ("uv".to_string(), 4, 0),
            ("aNormal".to_string(), 5, 8),
        ])
    );
    assert_eq!(shader_attributes(&vec![]), Ok(vec![]));
}

#[test]
fn shader_attributes_refuse_other_fields() {
    let fields = vec![
        field("position", true, None, None, None),
        field("count", false, None, None, None),
        field("flag", false, None, None, None),
    ];
    assert_eq!(shader_attributes(&fields), Err(1));
}
