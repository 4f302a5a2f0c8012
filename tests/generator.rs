use tdlib_gen::assemble::{generate, render_from};
use tdlib_gen::emit::{is_native, plan_field, render_native, render_union, sum_type_variants};
use tdlib_gen::graph::build_graph;
use tdlib_gen::naming::{lowercase_first_letter, name_for_variant, rename_var, uppercase_first_letter};
use tdlib_gen::parser::{parse_fun, parse_schema, LineFault};
use tdlib_gen::printer::print_fun;

fn lines(text: &str) -> Vec<String> {
    text.lines().map(|l| l.to_string()).collect()
}

#[test]
fn capitalizes_first_letter() {
    assert_eq!(uppercase_first_letter("messageText"), "MessageText");
    assert_eq!(uppercase_first_letter(""), "");
    assert_eq!(uppercase_first_letter("ßa"), "SSa");
}

#[test]
fn lowercases_first_letter() {
    assert_eq!(lowercase_first_letter("Int32"), "int32");
    assert_eq!(lowercase_first_letter("Vector<T>"), "vector<T>");
    assert_eq!(lowercase_first_letter(""), "");
}

#[test]
fn variant_label_without_prefix_keeps_whole_name() {
    assert_eq!(name_for_variant("newChatMember", "Update"), "NewChatMember");
}

#[test]
fn variant_label_strips_parent_prefix() {
    assert_eq!(name_for_variant("updateNewMessage", "Update"), "NewMessage");
    assert_eq!(name_for_variant("chatTypePrivate", "ChatType"), "Private");
    assert_eq!(name_for_variant("authorizationStateclosed", "AuthorizationState"), "Closed");
}

#[test]
fn variant_label_needs_a_strict_prefix() {
    assert_eq!(name_for_variant("update", "Update"), "Update");
    assert_eq!(name_for_variant("messageText", "MessageContent"), "MessageText");
}

#[test]
fn keyword_parameter_is_renamed() {
    assert_eq!(rename_var("type"), (true, "type_".to_string()));
    assert_eq!(rename_var("kind"), (false, "kind".to_string()));
    assert_eq!(rename_var("types"), (false, "types".to_string()));
}

#[test]
fn parses_declaration_line() {
    let d = parse_fun("user id:int53 first_name:string = User;").unwrap().unwrap();
    assert_eq!(d.name, "user");
    assert_eq!(
        d.params,
        vec![
            ("id".to_string(), "int53".to_string()),
            ("first_name".to_string(), "string".to_string())
        ]
    );
    assert_eq!(d.result, "User");
}

#[test]
fn parses_declaration_without_parameters() {
    let d = parse_fun("getMe = User; trailing").unwrap().unwrap();
    assert_eq!(d.name, "getMe");
    assert!(d.params.is_empty());
    assert_eq!(d.result, "User");
}

#[test]
fn parameter_type_is_everything_after_first_colon() {
    let d = parse_fun("f  a:vector<int32>   b:x:y =  R ;").unwrap().unwrap();
    assert_eq!(d.params[0], ("a".to_string(), "vector<int32>".to_string()));
    assert_eq!(d.params[1], ("b".to_string(), "x:y".to_string()));
    assert_eq!(d.result, "R");
}

#[test]
fn ignores_comments_and_lines_without_equals() {
    assert!(parse_fun("//@description a = b;").unwrap().is_none());
    assert!(parse_fun("").unwrap().is_none());
    assert!(parse_fun("---functions---").unwrap().is_none());
}

#[test]
fn rejects_parameter_without_colon() {
    assert_eq!(parse_fun("foo bar = Baz;").err(), Some(LineFault::MissingColon));
}

#[test]
fn rejects_statement_without_equals() {
    assert_eq!(parse_fun("foo a:B ; = C").err(), Some(LineFault::MissingEquals));
}

#[test]
fn section_markers_sort_declarations() {
    let s = parse_schema(&lines(
        "---functions---\ngetMe = User;\n---types---\nuser id:int53 = User;\n---functions---\nclose = Ok;",
    ))
    .unwrap();
    let cs: Vec<&str> = s.constructors.iter().map(|d| d.name.as_str()).collect();
    let fs: Vec<&str> = s.functions.iter().map(|d| d.name.as_str()).collect();
    assert_eq!(cs, vec!["user"]);
    assert_eq!(fs, vec!["getMe", "close"]);
}

#[test]
fn schema_error_names_the_line() {
    let e = parse_schema(&lines("ok = Ok;\n// note\nbad x = Y;")).err().unwrap();
    assert_eq!(e.line, 2);
    assert_eq!(e.fault, LineFault::MissingColon);
    let e = generate(&lines("a = A;\nb c:D ; = E")).err().unwrap();
    assert_eq!(e.line, 1);
    assert_eq!(e.fault, LineFault::MissingEquals);
}

#[test]
fn groups_constructors_by_result() {
    let s = parse_schema(&lines("a = X;\nb = Y;\nc = X;")).unwrap();
    let g = build_graph(&s.constructors);
    assert_eq!(g.groups.len(), 2);
    assert_eq!(g.groups[0].result, "X");
    assert_eq!(g.groups[0].members, vec!["a".to_string(), "c".to_string()]);
    assert_eq!(g.groups[1].members, vec!["b".to_string()]);
    assert!(g.is_abstract(&"X".to_string()));
    assert!(!g.is_abstract(&"Y".to_string()));
    assert!(!g.is_abstract(&"Z".to_string()));
    assert_eq!(g.parent_of_constructor(&s.constructors[0]), "X");
    assert_eq!(g.parent_of_constructor(&s.constructors[1]), "TLObject");
}

#[test]
fn plans_renamed_and_recursive_fields() {
    let s = parse_schema(&lines("richTextBold text:RichText = RichText;\nrichTextPlain type:string = RichText;")).unwrap();
    let g = build_graph(&s.constructors);
    let f = plan_field(&g, "RichText", "type", &"string".to_string());
    assert_eq!(f.wire_name, "type");
    assert_eq!(f.host_name, "type_");
    assert_eq!(f.host_type, "String");
    assert!(!f.boxed && !f.upcast);
    let f = plan_field(&g, "RichText", "text", &"RichText".to_string());
    assert!(f.boxed && f.upcast);
    assert_eq!(f.host_type, "RichText");
}

#[test]
fn native_aliases() {
    assert_eq!(render_native("Int32", "i32"), "type Int32 = i32;\ntype int32 = Int32;\n");
    assert_eq!(render_native("Bool", "bool"), "type Bool = bool;\n");
    assert_eq!(render_native("string", "String"), "type string = String;\n");
    assert!(is_native("Int53"));
    assert!(is_native("Vector<T>"));
    assert!(!is_native("int53"));
}

#[test]
fn sum_type_has_one_variant_per_member() {
    let ms = vec!["updateNewMessage".to_string(), "newChatMember".to_string()];
    let vs = sum_type_variants("Update", &ms);
    assert_eq!(
        vs,
        vec![
            ("NewMessage".to_string(), "UpdateNewMessage".to_string()),
            ("NewChatMember".to_string(), "NewChatMember".to_string())
        ]
    );
    assert_eq!(
        render_union("Update", &ms),
        "#[derive(Serialize, Deserialize, Clone, Debug)]\n#[serde(untagged)]\npub enum Update {\n    NewMessage(UpdateNewMessage),\n    NewChatMember(NewChatMember),\n}\n\n"
    );
}

#[test]
fn conversion_into_parent() {
    assert_eq!(
        render_from("chatTypePrivate", "ChatType"),
        "impl From<ChatTypePrivate> for ChatType {\n    fn from(x: ChatTypePrivate) -> Self {\n        ChatType::Private(x)\n    }\n}\n\n"
    );
}

#[test]
fn generates_records_with_tags_and_renames() {
    let out = generate(&lines("---types---\nfile id:int32 type:string = File;\n---functions---\ngetFile file_id:int32 = File;")).unwrap();
    assert!(out.starts_with("use serde::{Deserialize, Serialize};\n\ntype Int32 = i32;\ntype int32 = Int32;\n"));
    assert!(out.contains("#[derive(Serialize, Deserialize, Clone, Debug)]\npub enum EFile {\n    #[serde(rename = \"file\")]\n    File,\n}\n"));
    assert!(out.contains("#[serde(deny_unknown_fields)]\npub struct File {\n    #[serde(rename = \"@type\")]\n    tag : EFile,\n    pub id : Int32,\n    #[serde(rename = \"type\")]\n    pub type_ : String,\n}\n"));
    assert!(out.contains("    pub fn new(id : Int32, type_ : String, ) -> Self {\n        Self {\n            tag : EFile::File,\n            id,\n            type_,\n        }\n    }\n"));
    assert!(out.contains("impl From<File> for TLObject {"));
    assert!(out.contains("impl From<GetFile> for TLFunction {"));
    assert!(out.contains("pub enum TLObject {\n    File(File),\n}\n"));
    assert!(out.contains("pub enum TLFunction {\n    GetFile(GetFile),\n}\n"));
    assert!(out.ends_with("type file = File;\n\ntype getFile = GetFile;\n\n"));
}

#[test]
fn recursive_parameter_is_boxed() {
    let out = generate(&lines(
        "richTextPlain text:string = RichText;\nrichTextBold text:RichText = RichText;\nrichTexts texts:vector<RichText> = RichText;\nmessageText text:RichText = MessageContent;",
    ))
    .unwrap();
    assert!(out.contains("    Plain(RichTextPlain),\n    Bold(RichTextBold),\n    S(RichTexts),\n"));
    assert!(out.contains("pub struct RichTextBold {\n    #[serde(rename = \"@type\")]\n    tag : ERichTextBold,\n    pub text : Box<RichText>,\n}\n"));
    assert!(out.contains("pub fn new(text : impl Into<RichText>, ) -> Self {\n        Self {\n            tag : ERichTextBold::RichTextBold,\n            text : Box::new(text.into()),\n"));
    assert!(out.contains("pub struct MessageText {\n    #[serde(rename = \"@type\")]\n    tag : EMessageText,\n    pub text : RichText,\n}\n"));
    assert!(out.contains("            text : text.into(),\n"));
    assert!(out.contains("impl From<RichTextBold> for RichText {"));
    assert!(out.contains("impl From<RichText> for TLObject {\n    fn from(x: RichText) -> Self {\n        TLObject::RichText(x)\n"));
    assert!(out.contains("pub enum TLObject {\n    MessageText(MessageText),\n    RichText(RichText),\n}\n"));
}

#[test]
fn native_results_get_no_records() {
    let out = generate(&lines("boolFalse = Bool;\nboolTrue = Bool;")).unwrap();
    assert!(!out.contains("pub struct BoolFalse"));
    assert!(!out.contains("pub enum Bool {"));
    assert!(out.contains("impl From<Bool> for TLObject {"));
}

#[test]
fn printed_declaration_parses_back() {
    let d = parse_fun("sendMessage chat_id:int53 reply_to:MessageReplyTo input_message_content:InputMessageContent = Message;")
        .unwrap()
        .unwrap();
    let line = print_fun(&d);
    assert_eq!(
        line,
        "sendMessage chat_id:int53 reply_to:MessageReplyTo input_message_content:InputMessageContent = Message;"
    );
    let again = parse_fun(&line).unwrap().unwrap();
    assert_eq!(again.name, d.name);
    assert_eq!(again.params, d.params);
    assert_eq!(again.result, d.result);
}

#[test]
fn prints_declaration_without_parameters() {
    let d = parse_fun("  getMe   =   User  ;").unwrap().unwrap();
    assert_eq!(print_fun(&d), "getMe = User;");
}

#[test]
fn rejects_duplicate_declaration_in_a_section() {
    let e = parse_schema(&lines("a = X;\nb = X;\na x:int32 = Y;")).err().unwrap();
    assert_eq!(e.line, 2);
    assert_eq!(e.fault, LineFault::DuplicateName);
    let ok = parse_schema(&lines("a = X;\n---functions---\na = X;")).unwrap();
    assert_eq!(ok.constructors.len(), 1);
    assert_eq!(ok.functions.len(), 1);
}

#[test]
fn rejects_declaration_without_name() {
    assert_eq!(parse_fun("= Result;").err(), Some(LineFault::MissingName));
    assert_eq!(parse_fun("   = Result;").err(), Some(LineFault::MissingName));
}

#[test]
fn rejects_clashing_variant_labels() {
    let e = parse_schema(&lines("foo = Update;\nupdateFoo = Update;")).err().unwrap();
    assert_eq!(e.line, 1);
    assert_eq!(e.fault, LineFault::LabelClash);
    let e = generate(&lines("// header\nupdateBar = Update;\nupdatebar x:int32 = Update;")).err().unwrap();
    assert_eq!(e.line, 2);
    assert_eq!(e.fault, LineFault::LabelClash);
}

#[test]
fn same_label_under_different_results_is_accepted() {
    let s = parse_schema(&lines("foo = Alpha;\nupdateFoo = Update;\nupdateBar = Update;")).unwrap();
    assert_eq!(s.constructors.len(), 3);
}

#[test]
fn round_trip_with_slash_name_and_empty_result() {
    let d = parse_fun("/a x:int32 = ;").unwrap().unwrap();
    assert_eq!(d.name, "/a");
    assert_eq!(d.result, "");
    let line = print_fun(&d);
    assert_eq!(line, "/a x:int32 = ;");
    let again = parse_fun(&line).unwrap().unwrap();
    assert_eq!(again.name, d.name);
    assert_eq!(again.params, d.params);
    assert_eq!(again.result, d.result);
}
