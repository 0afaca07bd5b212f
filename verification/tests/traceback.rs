use flu::flu_traceback;
use flu::Frame;
use flu::FrameKind;
use flu::LocalValue;

#[test]
fn traceback_renders_frames() {
    let frames = vec![
        Frame {
            short_src: "chunk.lua".to_string(),
            currentline: 12,
            linedefined: 0,
            name: Some("worker".to_string()),
            kind: FrameKind::Scripted,
            locals: vec![
                ("x".to_string(), LocalValue::NumberText("5".to_string())),
                ("s".to_string(), LocalValue::Str("abc".to_string())),
                ("ok".to_string(), LocalValue::Bool(true)),
                ("t".to_string(), LocalValue::Table),
            ],
        },
        Frame {
            short_src: "chunk.lua".to_string(),
            currentline: 40,
            linedefined: 0,
            name: None,
            kind: FrameKind::Main,
            locals: vec![],
        },
    ];
    let out = flu_traceback("boom", &frames);
    assert_eq!(
        out,
        "boom\n\tchunk.lua:12: in function worker\n\t\tlocal x = 5\n\t\tlocal s = 'abc'\n\t\tlocal ok = true\n\t\tlocal t = table\n\tchunk.lua:40: in main chunk"
    );
}

#[test]
fn traceback_renders_builtin_and_native() {
    let frames = vec![
        Frame {
            short_src: String::new(),
            currentline: 0,
            linedefined: 0,
            name: None,
            kind: FrameKind::Builtin(23),
            locals: vec![],
        },
        Frame {
            short_src: "=[C]".to_string(),
            currentline: 0,
            linedefined: 0,
            name: None,
            kind: FrameKind::Native("0x1234".to_string()),
            locals: vec![],
        },
        Frame {
            short_src: "lib.lua".to_string(),
            currentline: 3,
            linedefined: 1,
            name: None,
            kind: FrameKind::Scripted,
            locals: vec![],
        },
    ];
    let out = flu_traceback("err", &frames);
    assert_eq!(
        out,
        "err\n\t[builtin#23]:\n\t=[C]: at 0x1234\n\tlib.lua:3: in function <lib.lua:1>"
    );
}


#[test]
fn traceback_elides_deep_walks() {
    let mut frames = Vec::new();
    for i in 0..30 {
        frames.push(Frame {
            short_src: "deep.lua".to_string(),
            currentline: i + 1,
            linedefined: 0,
            name: None,
            kind: FrameKind::Main,
            locals: vec![],
        });
    }
    let out = flu_traceback("err", &frames);
    // the leading frames, an ellipsis, then the trailing frames
    assert!(out.contains("\n\t..."));
    assert!(out.contains("deep.lua:12:"));
    assert!(!out.contains("deep.lua:13:"));
    assert!(!out.contains("deep.lua:19:"));
    assert!(out.contains("deep.lua:20:"));
    assert!(out.contains("deep.lua:30:"));
}
