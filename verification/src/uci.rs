//! The data of the Universal Chess Interface (UCI) protocol and the text of the engine's replies
use vstd::prelude::*;

use crate::chess_move::{spec_move_name, ChessMove};
use crate::score::positional_evaluation::spec_evaluation_string;
use crate::score::{PlyCount, PositionEvaluation};
use crate::text::{bool_to_str, i64_to_string, spec_bool_text, spec_decimal, spec_signed_decimal, u64_to_string};

verus! {

/// A count of searched positions (nodes)
pub type NodeCount = u64;

/// A search depth in plies
pub type SearchDepth = PlyCount;

/// The index of a principal variation when several are searched
pub type PvCount = u8;

/// A count of end-game table-base hits
pub type TableBaseHits = u64;

/// A list of moves
pub type SimpleMoveList = Vec<ChessMove>;

/// General search constraints that apply to all searches.
#[derive(Clone, Debug, PartialEq, Eq, Default)]
pub struct SearchConstraints {
    /// Limit the search to a subset of the available starting moves
    pub search_moves: Option<SimpleMoveList>,
    /// Maximum number of positions to explore
    pub max_nodes: Option<NodeCount>,
    /// Maximum number of plies to search in advance
    pub max_depth: Option<SearchDepth>,
    /// Hard maximum for how long to spend searching, in milliseconds.
    /// Engine can return the best move sooner than this time, but really doesn't have a reason to.
    pub move_time: Option<u64>,
    /// Limit search to finding a mate within certain number of moves
    pub mate_plies: Option<SearchDepth>,
}

/// Time controls for a standard or sudden death game, in milliseconds
#[derive(Copy, Clone, Debug, PartialEq, Eq, Default)]
pub struct TimeControls {
    /// White's total remaining time
    pub white_remaining: u64,
    /// Black's total remaining time
    pub black_remaining: u64,
    /// White's move increment
    pub white_increment: u64,
    /// Black's move increment
    pub black_increment: u64,
}

/// Limits in for how long the engine should search for
#[derive(Copy, Clone, Debug, PartialEq, Eq)]
pub enum TimeConstraints {
    /// Run search infinitely until stop is manually triggered
    Infinite,
    /// Standard FIDE clock rules
    Standard {
        /// The clocks of both sides
        time_controls: TimeControls,
        /// Moves until the next time control, if any
        moves_to_go: Option<SearchDepth>,
    },
}

/// Search options and constraints
#[derive(Clone, Debug, PartialEq, Eq)]
pub struct SearchParameters {
    /// If the search mode should ponder while opponent makes their moves
    pub ponder: bool,
    /// The time constraints for this search
    pub time_constraints: TimeConstraints,
    /// The general search constraints
    pub search_constraints: SearchConstraints,
}

/// The result from searching a position, contains the engine's perceived best move and optionally
/// what it believes the opponent will play next.
#[derive(Copy, Clone, Debug, PartialEq, Eq)]
pub struct SearchResult {
    /// The current best move
    pub best_move: ChessMove,
    /// Expected opponent's response to the current best move
    pub ponder_move: Option<ChessMove>,
}

/// The initial position
#[derive(Clone, Debug, PartialEq, Eq)]
pub enum InitialPosition {
    /// FIDE standard chess starting position
    StandardStartingPosition,
    /// Custom FEN string starting position
    Fen(String),
}

/// Position set from UCI command
#[derive(Clone, Debug, PartialEq, Eq)]
pub struct UciPosition {
    /// The starting position
    pub initial_position: InitialPosition,
    /// Optional number of moves to apply to the initial position
    pub moves: Option<SimpleMoveList>,
}

/// An option that a UCI GUI can use to configure an engine
#[derive(Clone, Debug, PartialEq, Eq)]
pub struct UciOption {
    /// The option's name
    pub name: String,
    /// The option's kind and configuration
    pub option: UciOptionType,
}

/// Different option kinds and their configurations
#[derive(Clone, Debug, PartialEq, Eq)]
pub enum UciOptionType {
    /// A button the GUI can press
    Button,
    /// An on/off switch
    Check {
        /// Its initial setting
        default: bool,
    },
    /// A number in a range
    Spin {
        /// The lowest value
        min: i64,
        /// The highest value
        max: i64,
        /// The initial value
        default: i64,
    },
    /// A choice among predefined values
    Combo {
        /// The values to choose from
        options: Vec<String>,
        /// The initial value
        default: String,
    },
    /// A text value
    String {
        /// The initial value
        default: String,
    },
}

/// Key value pair for a [UciOption]
#[derive(Clone, Debug, PartialEq, Eq)]
pub struct UciConfig {
    /// The name of the option being set
    pub name: String,
    /// The value it is set to, if any
    pub value: Option<String>,
}

/// A command sent by the GUI to the engine
#[derive(Clone, Debug, PartialEq, Eq)]
pub enum UciCommand {
    /// Switch to UCI mode
    Uci,
    /// Ask whether the engine is ready
    IsReady,
    /// Turn debug output on or off
    Debug(bool),
    /// The next search is in a new game
    UciNewGame,
    /// Set an option
    SetOption(UciConfig),
    /// Set the position
    Position(UciPosition),
    /// Start searching
    Go(SearchParameters),
    /// The opponent played the expected move
    PonderHit,
    /// Stop searching
    Stop,
    /// Quit the program
    Quit,
    /// Any other input
    Other(String),
}

/// Reply sent to the GUI from this chess engine
#[derive(Clone, Debug, PartialEq, Eq)]
pub enum UciResponse {
    /// The engine's name
    EngineName(String),
    /// The engine's authors
    EngineAuthors(String),
    /// An option the engine supports
    Option(UciOption),
    /// The engine has sent its identity and options
    UciOk,
    /// The engine is ready
    ReadyOk,
    /// The result of a search
    BestMove(SearchResult),
}

/// The application of a score in terms of its range limitations.
///
/// Used to indicate a range of possible scores.
#[derive(Copy, Clone, Debug, PartialEq, Eq, Structural)]
pub enum ScoreBoundsType {
    /// The score represents an exact evaluation
    Exact,
    /// The score represents an upper bound, or maximum value
    Upper,
    /// The score represents a lower bound, or minimum value
    Lower,
}

/// A [score](PositionEvaluation) with its [bounds type](ScoreBoundsType)
#[derive(Copy, Clone, Debug, PartialEq, Eq, Structural)]
pub struct UciScore {
    score: PositionEvaluation,
    bounds_type: ScoreBoundsType,
}

/// The text of a score with its bounds: the score, preceded by `upperbound ` or `lowerbound ` for bounds
pub open spec fn spec_score_text(score: PositionEvaluation, bounds_type: ScoreBoundsType) -> Seq<char> {
    match bounds_type {
        ScoreBoundsType::Exact => spec_evaluation_string(score),
        ScoreBoundsType::Upper => "upperbound "@ + spec_evaluation_string(score),
        ScoreBoundsType::Lower => "lowerbound "@ + spec_evaluation_string(score),
    }
}

impl UciScore {
    /// The score
    pub closed spec fn spec_score(&self) -> PositionEvaluation {
        self.score
    }

    /// The bounds of the score
    pub closed spec fn spec_bounds_type(&self) -> ScoreBoundsType {
        self.bounds_type
    }

    /// Create a new score
    pub fn new(score: PositionEvaluation, bounds_type: ScoreBoundsType) -> (res: Self)
        ensures
            res.spec_score() == score,
            res.spec_bounds_type() == bounds_type,
    {
        Self { score, bounds_type }
    }

    /// The score as sent to a UCI GUI
    pub fn to_uci_string(&self) -> (res: String)
        ensures
            res@ == spec_score_text(self.spec_score(), self.spec_bounds_type()),
    {
        let score = self.score.to_uci_string();
        match self.bounds_type {
            ScoreBoundsType::Exact => score,
            ScoreBoundsType::Upper => {
                let mut text = String::from_str("upperbound ");
                text.append(score.as_str());
                text
            },
            ScoreBoundsType::Lower => {
                let mut text = String::from_str("lowerbound ");
                text.append(score.as_str());
                text
            },
        }
    }
}

/// The names of a list of moves, each preceded by a space
pub open spec fn spec_moves_text(moves: Seq<ChessMove>) -> Seq<char>
    decreases moves.len(),
{
    if moves.len() == 0 {
        Seq::empty()
    } else {
        spec_moves_text(moves.drop_last()) + seq![' '] + spec_move_name(moves.last())
    }
}

/// The names of the moves, each preceded by a space
pub fn moves_text(moves: &Vec<ChessMove>) -> (res: String)
    ensures
        res@ == spec_moves_text(moves@),
{
    let mut text = String::new();
    let mut i: usize = 0;
    while i < moves.len()
        invariant
            i <= moves@.len(),
            text@ == spec_moves_text(moves@.subrange(0, i as int)),
        decreases moves@.len() - i,
    {
        proof {
            reveal_strlit(" ");
            assert(moves@.subrange(0, i + 1).drop_last() =~= moves@.subrange(0, i as int));
        }
        text.append(" ");
        text.append(moves[i].to_uci_string().as_str());
        i += 1;
    }
    proof {
        assert(moves@.subrange(0, moves@.len() as int) =~= moves@);
    }
    text
}

/// The choices of a combo option, each as ` var ` and the choice
pub open spec fn spec_combo_text(options: Seq<String>) -> Seq<char>
    decreases options.len(),
{
    if options.len() == 0 {
        Seq::empty()
    } else {
        spec_combo_text(options.drop_last()) + " var "@ + options.last()@
    }
}

fn combo_text(options: &Vec<String>) -> (res: String)
    ensures
        res@ == spec_combo_text(options@),
{
    let mut text = String::new();
    let mut i: usize = 0;
    while i < options.len()
        invariant
            i <= options@.len(),
            text@ == spec_combo_text(options@.subrange(0, i as int)),
        decreases options@.len() - i,
    {
        proof {
            assert(options@.subrange(0, i + 1).drop_last() =~= options@.subrange(0, i as int));
        }
        text.append(" var ");
        text.append(options[i].as_str());
        i += 1;
    }
    proof {
        assert(options@.subrange(0, options@.len() as int) =~= options@);
    }
    text
}

/// The line (ending in a line feed) a reply is sent to the GUI as
pub open spec fn spec_response_line(response: UciResponse) -> Seq<char> {
    match response {
        UciResponse::ReadyOk => "readyok\n"@,
        UciResponse::UciOk => "uciok\n"@,
        UciResponse::EngineName(name) => "id name "@ + name@ + "\n"@,
        UciResponse::EngineAuthors(authors) => "id author "@ + authors@ + "\n"@,
        UciResponse::Option(option) => "option name "@ + option.name@ + match option.option {
            UciOptionType::Button => " type button\n"@,
            UciOptionType::Check { default } => " type check default "@ + spec_bool_text(default) + "\n"@,
            UciOptionType::Spin { min, max, default } => " type spin min "@ + spec_signed_decimal(min as int) + " max "@
                + spec_signed_decimal(max as int) + " default "@ + spec_signed_decimal(default as int) + "\n"@,
            UciOptionType::Combo { options, default } => " type combo"@ + spec_combo_text(options@) + " default "@
                + default@ + "\n"@,
            UciOptionType::String { default } => " type string default "@ + default@ + "\n"@,
        },
        UciResponse::BestMove(result) => match result.ponder_move {
            None => "bestmove "@ + spec_move_name(result.best_move) + "\n"@,
            Some(ponder_move) => "bestmove "@ + spec_move_name(result.best_move) + " ponder "@ + spec_move_name(ponder_move)
                + "\n"@,
        },
    }
}

impl UciResponse {
    /// The line (ending in a line feed) the reply is sent to the GUI as
    pub fn to_line(&self) -> (res: String)
        ensures
            res@ == spec_response_line(*self),
    {
        match self {
            UciResponse::ReadyOk => String::from_str("readyok\n"),
            UciResponse::UciOk => String::from_str("uciok\n"),
            UciResponse::EngineName(engine_name) => {
                let mut line = String::from_str("id name ");
                line.append(engine_name.as_str());
                line.append("\n");
                line
            },
            UciResponse::EngineAuthors(authors) => {
                let mut line = String::from_str("id author ");
                line.append(authors.as_str());
                line.append("\n");
                line
            },
            UciResponse::Option(uci_option) => {
                let mut line = String::from_str("option name ");
                line.append(uci_option.name.as_str());
                match &uci_option.option {
                    UciOptionType::Button => line.append(" type button\n"),
                    UciOptionType::Check { default } => {
                        line.append(" type check default ");
                        line.append(bool_to_str(*default));
                        line.append("\n");
                    },
                    UciOptionType::Spin { min, max, default } => {
                        line.append(" type spin min ");
                        line.append(i64_to_string(*min).as_str());
                        line.append(" max ");
                        line.append(i64_to_string(*max).as_str());
                        line.append(" default ");
                        line.append(i64_to_string(*default).as_str());
                        line.append("\n");
                    },
                    UciOptionType::Combo { options, default } => {
                        line.append(" type combo");
                        line.append(combo_text(options).as_str());
                        line.append(" default ");
                        line.append(default.as_str());
                        line.append("\n");
                    },
                    UciOptionType::String { default } => {
                        line.append(" type string default ");
                        line.append(default.as_str());
                        line.append("\n");
                    },
                }
                line
            },
            UciResponse::BestMove(SearchResult { best_move, ponder_move }) => {
                let mut line = String::from_str("bestmove ");
                line.append(best_move.to_uci_string().as_str());
                match ponder_move {
                    None => {},
                    Some(ponder_move) => {
                        line.append(" ponder ");
                        line.append(ponder_move.to_uci_string().as_str());
                    },
                }
                line.append("\n");
                line
            },
        }
    }
}

impl UciCommand {
    /// The command of a (trimmed) input line the engine understands: `isready` or `quit`
    pub fn from_trimmed_line(line: &str) -> (res: Option<UciCommand>)
        ensures
            res == (if line@ == "isready"@ {
                Some(UciCommand::IsReady)
            } else if line@ == "quit"@ {
                Some(UciCommand::Quit)
            } else {
                None
            }),
    {
        let chars = crate::text::str_chars(line);
        let isready = crate::text::str_chars("isready");
        let quit = crate::text::str_chars("quit");
        if crate::text::chars_eq(chars.as_slice(), isready.as_slice()) {
            Some(UciCommand::IsReady)
        } else if crate::text::chars_eq(chars.as_slice(), quit.as_slice()) {
            Some(UciCommand::Quit)
        } else {
            None
        }
    }
}

/// An informational message that can be sent to a UCI compatible GUI and processed to show the
/// engine's current state.  State like: how many moves have been search, for how long, what is the
/// best move so far, the evaluation for the current position, and more.
#[derive(Clone, Debug, PartialEq, Eq, Default)]
pub struct UciInfoResponse {
    /// Raw message
    pub string: Option<String>,
    /// How many nodes per second the engine is covering
    pub nodes_per_second: Option<NodeCount>,
    /// The root move currently being explored
    pub current_move: Option<ChessMove>,
    /// The current root move index, starting at 1
    pub current_move_number: Option<usize>,
    /// How many moves ahead the search has looked
    pub search_depth: Option<SearchDepth>,
    /// If searching selectively deeper, to what depth
    pub selective_search_depth: Option<SearchDepth>,
    /// How much time has been spent searching, in milliseconds
    pub time_searched: Option<u64>,
    /// The number of chess positions (nodes) searched
    pub nodes_searched: Option<NodeCount>,
    /// The current best line
    pub principle_variation: Option<SimpleMoveList>,
    /// Multi-PV Nth best variation index
    pub multi_pv_index: Option<PvCount>,
    /// Evaluation for the current move
    pub evaluation: Option<UciScore>,
    /// Hash table usage, in thousandths
    pub hash_table_usage: Option<u32>,
    /// The current CPU's average usage across all cores, in thousandths
    pub cpu_usage: Option<u32>,
    /// End-game table-base hits
    pub endgame_table_base_hits: Option<TableBaseHits>,
}

/// A numeric field of an info line: its keyword and the number, or nothing when the field is not set
pub open spec fn number_field(keyword: Seq<char>, value: Option<nat>) -> Seq<char> {
    match value {
        Some(n) => keyword + spec_decimal(n),
        None => Seq::empty(),
    }
}

/// The search progress fields of an info message: current move and its number, depth, selective depth, time and nodes
pub open spec fn spec_info_progress_text(info: UciInfoResponse) -> Seq<char> {
    (match info.current_move { Some(m) => " currmove "@ + spec_move_name(m), None => Seq::empty() })
        + number_field(" currmovenumber "@, match info.current_move_number { Some(n) => Some(n as nat), None => None })
        + number_field(" depth "@, match info.search_depth { Some(n) => Some(n as nat), None => None })
        + number_field(" seldepth "@, match info.selective_search_depth { Some(n) => Some(n as nat), None => None })
        + number_field(" time "@, match info.time_searched { Some(n) => Some(n as nat), None => None })
        + number_field(" nodes "@, match info.nodes_searched { Some(n) => Some(n as nat), None => None })
}

/// The search result fields of an info message: principal variation, multi-PV index and score
pub open spec fn spec_info_result_text(info: UciInfoResponse) -> Seq<char> {
    (match info.principle_variation { Some(pv) => " pv"@ + spec_moves_text(pv@), None => Seq::empty() })
        + number_field(" multipv "@, match info.multi_pv_index { Some(n) => Some(n as nat), None => None })
        + (match info.evaluation {
            Some(e) => " score "@ + spec_score_text(e.spec_score(), e.spec_bounds_type()),
            None => Seq::empty(),
        })
}

/// The resource fields of an info message and its message: hash usage, CPU load, table-base hits, nodes per second,
/// then the free text
pub open spec fn spec_info_resource_text(info: UciInfoResponse) -> Seq<char> {
    number_field(" hashfull "@, match info.hash_table_usage { Some(n) => Some(n as nat), None => None })
        + number_field(" cpuload "@, match info.cpu_usage { Some(n) => Some(n as nat), None => None })
        + number_field(" tbhits "@, match info.endgame_table_base_hits { Some(n) => Some(n as nat), None => None })
        + number_field(" nps "@, match info.nodes_per_second { Some(n) => Some(n as nat), None => None })
        + (match info.string { Some(text) => " string "@ + text@, None => Seq::empty() })
}

/// The text of an info message after `info`: each field set, in the order current move, current move number,
/// depth, selective depth, time, nodes, principal variation, multi-PV index, score, hash usage, CPU load,
/// table-base hits, nodes per second and finally the free text message
pub open spec fn spec_info_text(info: UciInfoResponse) -> Seq<char> {
    spec_info_progress_text(info) + spec_info_result_text(info) + spec_info_resource_text(info)
}

/// Append a numeric field: its keyword and number when it is set
fn append_field(text: &mut String, keyword: &str, value: Option<u64>)
    ensures
        final(text)@ == old(text)@ + number_field(keyword@, match value { Some(n) => Some(n as nat), None => None }),
{
    match value {
        Some(n) => append_number(text, keyword, n),
        None => {
            proof {
                assert(text@ =~= text@ + Seq::<char>::empty());
            }
        },
    }
}

/// Append a keyword and a number
fn append_number(text: &mut String, keyword: &str, value: u64)
    ensures
        final(text)@ == old(text)@ + keyword@ + spec_decimal(value as nat),
{
    text.append(keyword);
    text.append(u64_to_string(value).as_str());
}

impl UciInfoResponse {
    /// Create a new UciInfo message without any information included
    pub fn new() -> (res: Self)
        ensures
            res == Self::empty_spec(),
    {
        UciInfoResponse {
            string: None,
            nodes_per_second: None,
            current_move: None,
            current_move_number: None,
            search_depth: None,
            selective_search_depth: None,
            time_searched: None,
            nodes_searched: None,
            principle_variation: None,
            multi_pv_index: None,
            evaluation: None,
            hash_table_usage: None,
            cpu_usage: None,
            endgame_table_base_hits: None,
        }
    }

    /// The message without any information
    pub open spec fn empty_spec() -> Self {
        UciInfoResponse {
            string: None,
            nodes_per_second: None,
            current_move: None,
            current_move_number: None,
            search_depth: None,
            selective_search_depth: None,
            time_searched: None,
            nodes_searched: None,
            principle_variation: None,
            multi_pv_index: None,
            evaluation: None,
            hash_table_usage: None,
            cpu_usage: None,
            endgame_table_base_hits: None,
        }
    }

    /// Print a custom string message
    pub fn with_message(self, message: String) -> (res: Self)
        ensures
            res == (UciInfoResponse { string: Some(message), ..self }),
    {
        UciInfoResponse { string: Some(message), ..self }
    }

    /// Inform the GUI how many positions this engine is covering in one second.
    pub fn with_nodes_per_second(self, nodes_per_second: NodeCount) -> (res: Self)
        ensures
            res == (UciInfoResponse { nodes_per_second: Some(nodes_per_second), ..self }),
    {
        UciInfoResponse { nodes_per_second: Some(nodes_per_second), ..self }
    }

    /// Express how many positions have been checked so far
    pub fn with_nodes_searched(self, nodes_searched: NodeCount) -> (res: Self)
        ensures
            res == (UciInfoResponse { nodes_searched: Some(nodes_searched), ..self }),
    {
        UciInfoResponse { nodes_searched: Some(nodes_searched), ..self }
    }

    /// Add information for the evaluation of the current position in the search so far.
    pub fn with_evaluation(self, evaluation: UciScore) -> (res: Self)
        ensures
            res == (UciInfoResponse { evaluation: Some(evaluation), ..self }),
    {
        UciInfoResponse { evaluation: Some(evaluation), ..self }
    }

    /// Include information about what move is currently being searched, with its (zero based) index
    pub fn with_current_move(self, current_move: ChessMove, move_index: usize) -> (res: Self)
        requires
            move_index < usize::MAX,
        ensures
            res == (UciInfoResponse { current_move: Some(current_move), current_move_number: Some((move_index + 1) as usize), ..self }),
    {
        UciInfoResponse { current_move: Some(current_move), current_move_number: Some(move_index + 1), ..self }
    }

    /// Include information on how many endgame positions were avoided because of a table database.
    pub fn with_table_base_hits(self, endgame_table_base_hits: TableBaseHits) -> (res: Self)
        ensures
            res == (UciInfoResponse { endgame_table_base_hits: Some(endgame_table_base_hits), ..self }),
    {
        UciInfoResponse { endgame_table_base_hits: Some(endgame_table_base_hits), ..self }
    }

    /// Tell the GUI how full the engine's hashtable is, in thousandths
    pub fn with_hash_table_usage(self, hash_table_usage: u32) -> (res: Self)
        requires
            hash_table_usage <= 1000,
        ensures
            res == (UciInfoResponse { hash_table_usage: Some(hash_table_usage), ..self }),
    {
        UciInfoResponse { hash_table_usage: Some(hash_table_usage), ..self }
    }

    /// Tell the GUI what share of the CPU it is using, in thousandths
    pub fn with_cpu_usage(self, cpu_usage: u32) -> (res: Self)
        requires
            cpu_usage <= 1000,
        ensures
            res == (UciInfoResponse { cpu_usage: Some(cpu_usage), ..self }),
    {
        UciInfoResponse { cpu_usage: Some(cpu_usage), ..self }
    }

    /// Tell the GUI what the current search depth is
    pub fn with_search_depth(self, search_depth: SearchDepth) -> (res: Self)
        ensures
            res == (UciInfoResponse { search_depth: Some(search_depth), ..self }),
    {
        UciInfoResponse { search_depth: Some(search_depth), ..self }
    }

    /// Tell the GUI the selective search depth of the current move, and the current search depth
    pub fn with_selective_search_depth(self, selective_search_depth: SearchDepth, search_depth: SearchDepth) -> (res: Self)
        ensures
            res == (UciInfoResponse { selective_search_depth: Some(selective_search_depth), search_depth: Some(search_depth), ..self }),
    {
        UciInfoResponse { selective_search_depth: Some(selective_search_depth), search_depth: Some(search_depth), ..self }
    }

    /// Give the best line to the GUI, with how long (in milliseconds) it took to find
    pub fn with_principle_variation(self, search_duration: u64, principle_variation: SimpleMoveList) -> (res: Self)
        ensures
            res == (UciInfoResponse { time_searched: Some(search_duration), principle_variation: Some(principle_variation), ..self }),
    {
        UciInfoResponse { time_searched: Some(search_duration), principle_variation: Some(principle_variation), ..self }
    }

    /// Give the Nth best move line to the GUI, with how long (in milliseconds) it took to find
    pub fn with_multi_principle_variation(self, search_duration: u64, variation: SimpleMoveList, multi_pv_index: PvCount) -> (res: Self)
        ensures
            res == (UciInfoResponse {
                time_searched: Some(search_duration),
                principle_variation: Some(variation),
                multi_pv_index: Some(multi_pv_index),
                ..self
            }),
    {
        UciInfoResponse {
            time_searched: Some(search_duration),
            principle_variation: Some(variation),
            multi_pv_index: Some(multi_pv_index),
            ..self
        }
    }

    /// The info message's fields as sent after `info`: a multi-PV index goes with a principal variation
    pub fn to_uci_string(&self) -> (res: String)
        requires
            self.multi_pv_index is Some ==> self.principle_variation is Some,
        ensures
            res@ == spec_info_text(*self),
    {
        let mut text = self.progress_text();
        text.append(self.result_text().as_str());
        text.append(self.resource_text().as_str());
        text
    }

    #[verifier::spinoff_prover]
    fn progress_text(&self) -> (res: String)
        ensures
            res@ == spec_info_progress_text(*self),
    {
        let mut text = String::new();
        let ghost start = text@;
        if let Some(current_move) = self.current_move {
            text.append(" currmove ");
            text.append(current_move.to_uci_string().as_str());
        }
        proof { assert(text@ =~= start + (match self.current_move { Some(m) => " currmove "@ + spec_move_name(m), None => Seq::<char>::empty() })); }
        let ghost t1 = text@;
        append_field(&mut text, " currmovenumber ", match self.current_move_number { Some(n) => Some(n as u64), None => None });
        let ghost t2 = text@;
        append_field(&mut text, " depth ", match self.search_depth { Some(n) => Some(n as u64), None => None });
        let ghost t3 = text@;
        append_field(&mut text, " seldepth ", match self.selective_search_depth { Some(n) => Some(n as u64), None => None });
        let ghost t4 = text@;
        append_field(&mut text, " time ", self.time_searched);
        let ghost t5 = text@;
        append_field(&mut text, " nodes ", self.nodes_searched);
        proof {
            assert(start =~= Seq::<char>::empty());
            assert(t2 == t1 + number_field(" currmovenumber "@, match self.current_move_number { Some(n) => Some(n as nat), None => None }));
            assert(t3 == t2 + number_field(" depth "@, match self.search_depth { Some(n) => Some(n as nat), None => None }));
            assert(t4 == t3 + number_field(" seldepth "@, match self.selective_search_depth { Some(n) => Some(n as nat), None => None }));
            assert(t5 == t4 + number_field(" time "@, match self.time_searched { Some(n) => Some(n as nat), None => None }));
            assert(text@ == t5 + number_field(" nodes "@, match self.nodes_searched { Some(n) => Some(n as nat), None => None }));
        }
        text
    }

    fn result_text(&self) -> (res: String)
        ensures
            res@ == spec_info_result_text(*self),
    {
        let mut text = String::new();
        let ghost start = text@;
        if let Some(principle_variation) = &self.principle_variation {
            text.append(" pv");
            text.append(moves_text(principle_variation).as_str());
        }
        proof { assert(text@ =~= start + (match self.principle_variation { Some(pv) => " pv"@ + spec_moves_text(pv@), None => Seq::<char>::empty() })); }
        let ghost t1 = text@;
        if let Some(multi_pv_index) = self.multi_pv_index {
            append_number(&mut text, " multipv ", multi_pv_index as u64);
        }
        proof { assert(text@ =~= t1 + number_field(" multipv "@, match self.multi_pv_index { Some(n) => Some(n as nat), None => None })); }
        let ghost t2 = text@;
        if let Some(evaluation) = self.evaluation {
            text.append(" score ");
            text.append(evaluation.to_uci_string().as_str());
        }
        proof {
            assert(text@ =~= t2 + (match self.evaluation {
                Some(e) => " score "@ + spec_score_text(e.spec_score(), e.spec_bounds_type()),
                None => Seq::<char>::empty(),
            }));
            assert(start =~= Seq::<char>::empty());
        }
        text
    }

    fn resource_text(&self) -> (res: String)
        ensures
            res@ == spec_info_resource_text(*self),
    {
        let mut text = String::new();
        let ghost start = text@;
        if let Some(hash_table_usage) = self.hash_table_usage {
            append_number(&mut text, " hashfull ", hash_table_usage as u64);
        }
        proof { assert(text@ =~= start + number_field(" hashfull "@, match self.hash_table_usage { Some(n) => Some(n as nat), None => None })); }
        let ghost t1 = text@;
        if let Some(cpu_usage) = self.cpu_usage {
            append_number(&mut text, " cpuload ", cpu_usage as u64);
        }
        proof { assert(text@ =~= t1 + number_field(" cpuload "@, match self.cpu_usage { Some(n) => Some(n as nat), None => None })); }
        let ghost t2 = text@;
        if let Some(endgame_table_base_hits) = self.endgame_table_base_hits {
            append_number(&mut text, " tbhits ", endgame_table_base_hits);
        }
        proof { assert(text@ =~= t2 + number_field(" tbhits "@, match self.endgame_table_base_hits { Some(n) => Some(n as nat), None => None })); }
        let ghost t3 = text@;
        if let Some(nodes_per_second) = self.nodes_per_second {
            append_number(&mut text, " nps ", nodes_per_second);
        }
        proof { assert(text@ =~= t3 + number_field(" nps "@, match self.nodes_per_second { Some(n) => Some(n as nat), None => None })); }
        let ghost t4 = text@;
        // String must be last
        if let Some(string) = &self.string {
            text.append(" string ");
            text.append(string.as_str());
        }
        proof {
            assert(text@ =~= t4 + (match self.string { Some(string) => " string "@ + string@, None => Seq::<char>::empty() }));
            assert(start =~= Seq::<char>::empty());
        }
        text
    }
}

} // verus!
