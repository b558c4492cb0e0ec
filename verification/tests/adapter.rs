use vm_agent::adapter::{
    request_of_frame, response_frame, Failure, KIND_CODE, KIND_COMMAND, KIND_ERROR, KIND_OUTPUT,
};
use vm_agent::exec::{ExecRequest, ExecResponse, ExecResult, ExecutionError};
use vm_agent::payload::{encode_command, encode_payload, CommandPayload, Payload, Request};
use vm_agent::reader::FrameReader;
use vm_agent::wire::{FrameError, Header};

fn words(list: &[&str]) -> Vec<String> {
    list.iter().map(|w| w.to_string()).collect()
}

#[test]
fn code_frame_asks_for_the_interpreter() {
    let payload = Payload { code: "console.log('Hello world!');\n".to_owned(), config: None };
    let body = encode_payload(&payload).unwrap();
    let header = Header { request_type: KIND_CODE, payload_length: body.len() as u64 };
    let request = request_of_frame(header, &body).unwrap();
    assert_eq!(request.cmd, words(&["node", "-e", "console.log('Hello world!');"]));
    assert!(request.env.vars.is_empty());
}

#[test]
fn command_frame_asks_for_its_command() {
    let body = encode_command(&CommandPayload { command: words(&["echo", "hi "]) }).unwrap();
    let header = Header { request_type: KIND_COMMAND, payload_length: body.len() as u64 };
    let request = request_of_frame(header, &body).unwrap();
    assert_eq!(request.cmd, words(&["echo", "hi "]));
}

#[test]
fn unknown_tag_or_wrong_body_is_malformed() {
    let code = encode_payload(&Payload { code: "1".to_owned(), config: None }).unwrap();
    let command = encode_command(&CommandPayload { command: words(&["ls"]) }).unwrap();
    for kind in [0u8, 3, KIND_OUTPUT, KIND_ERROR] {
        let header = Header { request_type: kind, payload_length: code.len() as u64 };
        assert_eq!(request_of_frame(header, &code).err(), Some(FrameError::Malformed));
    }
    let as_command = Header { request_type: KIND_COMMAND, payload_length: code.len() as u64 };
    assert_eq!(request_of_frame(as_command, &code).err(), Some(FrameError::Malformed));
    let as_code = Header { request_type: KIND_CODE, payload_length: command.len() as u64 };
    assert_eq!(request_of_frame(as_code, &command).err(), Some(FrameError::Malformed));
}

#[test]
fn output_goes_back_framed() {
    let result = ExecResult::from_status(Some(0), None, b"hi\n".to_vec(), b"warn".to_vec());
    assert_eq!(
        response_frame(&Ok(result)),
        vec![KIND_OUTPUT, 0, 0, 0, 0, 0, 0, 0, 3, b'h', b'i', b'\n']
    );
    let silent = ExecResult::from_status(Some(1), None, vec![], vec![]);
    assert_eq!(response_frame(&Ok(silent)), vec![128u8, 0, 0, 0, 0, 0, 0, 0, 0]);
}

#[test]
fn each_failure_has_its_byte() {
    let cases = [
        (Failure::Frame(FrameError::Truncated), 1u8),
        (Failure::Frame(FrameError::Malformed), 2),
        (Failure::Frame(FrameError::TooLarge), 3),
        (Failure::Execution(ExecutionError::SpawnFailed), 4),
        (Failure::Execution(ExecutionError::IoFailure), 5),
    ];
    for (failure, code) in cases {
        assert_eq!(response_frame(&Err(failure)), vec![255u8, 0, 0, 0, 0, 0, 0, 0, 1, code]);
    }
}

#[test]
fn one_connection_from_bytes_to_answer() {
    let sent = Request::new(KIND_CODE, "1 + 1 \n".to_owned(), Some("{}".to_owned()))
        .unwrap()
        .encode()
        .unwrap();
    let mut reader = FrameReader::new(1024);
    for byte in sent.iter() {
        assert_eq!(reader.feed(&[*byte]), 1);
    }
    assert_eq!(reader.wanted(), 0);
    let (header, body) = reader.finish_raw().unwrap();
    let plan = request_of_frame(header, &body).unwrap().plan().unwrap();
    assert_eq!(plan.program, "node");
    assert_eq!(plan.args, words(&["-e", "1 + 1"]));
    assert_eq!(plan.command_line, "node -e 1 + 1");
    let result = ExecResult::from_status(Some(0), None, b"2\n".to_vec(), vec![]);
    assert_eq!(response_frame(&Ok(result)), vec![128u8, 0, 0, 0, 0, 0, 0, 0, 2, b'2', b'\n']);
}

#[test]
fn echo_hi_as_the_library_sees_it() {
    let plan = ExecRequest::from_words(words(&["echo", "hi"])).plan().unwrap();
    assert_eq!((plan.program.as_str(), plan.args.len()), ("echo", 1));
    let result = ExecResult::from_status(Some(0), None, b"hi\n".to_vec(), vec![]);
    let response = ExecResponse::from_result(result).unwrap();
    assert_eq!(
        response,
        ExecResponse {
            exit_code: Some(0),
            exit_signal: None,
            stdout: "hi\n".to_owned(),
            stderr: "".to_owned()
        }
    );
}

#[test]
fn false_as_the_library_sees_it() {
    let plan = ExecRequest::from_words(words(&["/bin/false"])).plan().unwrap();
    assert_eq!(plan.program, "/bin/false");
    let result = ExecResult::from_status(Some(1), None, vec![], vec![]);
    let response = ExecResponse::from_result(result).unwrap();
    assert_eq!(response.exit_code, Some(1));
    assert_eq!(response.exit_signal, None);
    assert_eq!(response.stdout, "");
    assert_eq!(response.stderr, "");
}

#[test]
fn spawn_failure_is_answered_as_a_failure_not_a_result() {
    let outcome: Result<ExecResult, Failure> = Err(Failure::Execution(ExecutionError::SpawnFailed));
    let frame = response_frame(&outcome);
    assert_eq!(frame[0], KIND_ERROR);
    assert_eq!(frame[9], 4);
}
