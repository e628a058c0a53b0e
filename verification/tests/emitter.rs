use std::path::PathBuf;
use teeny_tiny::emitter::Emitter;
use teeny_tiny::error::CompileError;
use teeny_tiny::lex::Lexer;
use teeny_tiny::parse::Parser;

fn compile(source: &str) -> Result<String, CompileError> {
    let mut parser = Parser::new(
        Lexer::new(source.chars().collect()),
        Emitter::new(PathBuf::from("out.c")),
    )?;
    parser.emit()
}

const AVERAGE: &str = "# Compute average of given values.

LET a = 0
WHILE a < 1 REPEAT
    PRINT \"Enter number of scores: \"
    INPUT a
ENDWHILE

LET b = 0
LET s = 0
PRINT \"Enter one value at a time: \"
WHILE b < a REPEAT
    INPUT c
    LET s = s + c
    LET b = b + 1
ENDWHILE

PRINT \"Average: \"
PRINT s / a
";

const AVERAGE_BUILT: &str = "#include <stdio.h>
int main(void){
float a;
float b;
float s;
float c;
a = 0;
while (a<1) {
printf(\"Enter number of scores: \\n\");
if(0 == scanf(\"%f\", &a)) {
a = 0;
scanf(\"%*s\");
}
}
b = 0;
s = 0;
printf(\"Enter one value at a time: \\n\");
while (b<a) {
if(0 == scanf(\"%f\", &c)) {
c = 0;
scanf(\"%*s\");
}
s = s+c;
b = b+1;
}
printf(\"Average: \\n\");
printf(\"%.2f\\n\", (float)(s/a));
return 0;
}
";

const FIBONACCI: &str = "PRINT \"How many fibonacci numbers do you want?\"
INPUT nums
PRINT \"\"

LET a = 0
LET b = 1
WHILE nums > 0 REPEAT
    PRINT a
    LET c = a + b
    LET a = b
    LET b = c
    LET nums = nums - 1
ENDWHILE
";

const FIBONACCI_BUILT: &str = "#include <stdio.h>
int main(void){
float nums;
float a;
float b;
float c;
printf(\"How many fibonacci numbers do you want?\\n\");
if(0 == scanf(\"%f\", &nums)) {
nums = 0;
scanf(\"%*s\");
}
printf(\"\\n\");
a = 0;
b = 1;
while (nums>0) {
printf(\"%.2f\\n\", (float)(a));
c = a+b;
a = b;
b = c;
nums = nums-1;
}
return 0;
}
";

#[test]
fn test_average() {
    assert_eq!(compile(AVERAGE).unwrap(), AVERAGE_BUILT);
}

#[test]
fn test_fibonacci() {
    assert_eq!(compile(FIBONACCI).unwrap(), FIBONACCI_BUILT);
}

#[test]
fn emitter_starts_empty() {
    let emitter = Emitter::new(PathBuf::from("some/where.c"));
    assert_eq!(emitter.full_path, PathBuf::from("some/where.c"));
    assert_eq!(emitter.header, "");
    assert_eq!(emitter.code, "");
    assert_eq!(emitter.output(), "");
}

#[test]
fn emitter_appends_to_each_buffer_in_order() {
    let mut emitter = Emitter::new(PathBuf::from("out.c"));
    emitter.emit("a");
    emitter.header("h");
    emitter.emit_line("b");
    emitter.header_line("i");
    emitter.emit("c");
    emitter.header("j");
    assert_eq!(emitter.code, "ab\nc");
    assert_eq!(emitter.header, "hi\nj");
    assert_eq!(emitter.output(), "hi\njab\nc");
    assert_eq!(emitter.full_path, PathBuf::from("out.c"));
}

#[test]
fn emitter_output_does_not_empty_the_buffers() {
    let mut emitter = Emitter::new(PathBuf::from("out.c"));
    emitter.header_line("x");
    emitter.emit_line("y");
    assert_eq!(emitter.output(), "x\ny\n");
    assert_eq!(emitter.output(), "x\ny\n");
    assert_eq!(emitter.header, "x\n");
    assert_eq!(emitter.code, "y\n");
}

#[test]
fn emitter_clone_is_equal() {
    let mut emitter = Emitter::new(PathBuf::from("dir/out.c"));
    emitter.header("h");
    emitter.emit("c");
    let copy = emitter.clone();
    assert_eq!(copy, emitter);
    assert_eq!(copy.full_path, PathBuf::from("dir/out.c"));
}
