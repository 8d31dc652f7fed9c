use lib::ast::{
    ArrayLiteralExpr, AssignStmt, BinaryExpr, BlockStmt, BoolLiteral, BreakStmt, CallExpr,
    CharLiteral, CompoundAssignStmt, ContinueStmt, EnumCaseDecl, EnumDecl, ErrorLiteral,
    ExprStmt, Expression, ForStmt, FunctionDecl, FunctionLiteralExpr, GroupExpr, HandleExpr,
    IdentExpr, IfStmt, IndexExpr, IntLiteral, InterfaceDecl, InterfaceMethodDecl, LetStmt,
    MapLiteralExpr, MapLiteralPair, MatchArm, MatchStmt, NilLiteral, Param, Program,
    PropagateExpr, ReceiverDecl, ReturnStmt, SelectorExpr, SliceExpr, SliceLiteralExpr,
    SpawnStmt, Statement, StringLiteral, StructDecl, StructField, StructLiteralExpr,
    StructLiteralField, TaskgroupExpr, TypeApplicationExpr, TypeParam, TypeRef, TypeRefKind,
    UnaryExpr, VarStmt,
};
use lib::checker::{check_program, check_program_metadata, Checker, Signature};
use lib::diag::Diagnostic;
use lib::lexer::{parse_char_literal, parse_int_literal, Lexer};
use lib::token::{Kind, Position, Token};

// ---------------------------------------------------------------------------
// A recursive-descent reader of Yar source, enough for the programs below.

struct Parser {
    tokens: Vec<Token>,
    at: usize,
    no_struct_literal: bool,
}

fn empty_type(pos: Position) -> TypeRef {
    TypeRef {
        kind: TypeRefKind::Named,
        name: String::new(),
        type_args: Vec::new(),
        array_len: 0,
        elem: None,
        key: None,
        value: None,
        params: Vec::new(),
        return_type: None,
        errorable: false,
        pos,
    }
}

impl Parser {
    fn peek(&self) -> &Token {
        &self.tokens[self.at.min(self.tokens.len() - 1)]
    }

    fn peek_at(&self, offset: usize) -> &Token {
        &self.tokens[(self.at + offset).min(self.tokens.len() - 1)]
    }

    fn kind(&self) -> Kind {
        self.peek().kind
    }

    fn next(&mut self) -> Token {
        let token = self.peek().clone();
        if self.at < self.tokens.len() - 1 {
            self.at += 1;
        }
        token
    }

    fn expect(&mut self, kind: Kind) -> Token {
        let token = self.next();
        assert_eq!(token.kind, kind, "expected {kind:?} at {:?}, got {:?}", token.pos, token);
        token
    }

    fn eat(&mut self, kind: Kind) -> bool {
        if self.kind() == kind {
            self.next();
            true
        } else {
            false
        }
    }

    fn previous_line(&self) -> usize {
        if self.at == 0 {
            0
        } else {
            self.tokens[self.at - 1].pos.line
        }
    }

    fn same_line(&self) -> bool {
        self.peek().pos.line == self.previous_line()
    }

    fn program(&mut self) -> Program {
        let package = self.expect(Kind::Package);
        let name = self.expect(Kind::Ident);
        let mut program = Program {
            package_pos: package.pos,
            package_name: name.text,
            imports: Vec::new(),
            structs: Vec::new(),
            interfaces: Vec::new(),
            enums: Vec::new(),
            functions: Vec::new(),
        };
        while self.kind() != Kind::Eof {
            let exported = self.eat(Kind::Pub);
            match self.kind() {
                Kind::Struct => program.structs.push(self.struct_decl(exported)),
                Kind::Interface => program.interfaces.push(self.interface_decl(exported)),
                Kind::Enum => program.enums.push(self.enum_decl(exported)),
                Kind::Fn => program.functions.push(self.function_decl(exported)),
                other => panic!("unexpected declaration token {other:?} at {:?}", self.peek().pos),
            }
        }
        program
    }

    fn type_params(&mut self) -> Vec<TypeParam> {
        let mut params = Vec::new();
        if self.kind() == Kind::LBracket {
            self.next();
            while self.kind() != Kind::RBracket {
                let name = self.expect(Kind::Ident);
                params.push(TypeParam { name: name.text, pos: name.pos });
                if !self.eat(Kind::Comma) {
                    break;
                }
            }
            self.expect(Kind::RBracket);
        }
        params
    }

    fn fields(&mut self) -> Vec<StructField> {
        self.expect(Kind::LBrace);
        let mut fields = Vec::new();
        while self.kind() != Kind::RBrace {
            let exported = self.eat(Kind::Pub);
            let name = self.expect(Kind::Ident);
            let type_ref = self.type_ref();
            fields.push(StructField { exported, name: name.text, name_pos: name.pos, type_ref });
            self.eat(Kind::Comma);
        }
        self.expect(Kind::RBrace);
        fields
    }

    fn struct_decl(&mut self, exported: bool) -> StructDecl {
        let keyword = self.expect(Kind::Struct);
        let name = self.expect(Kind::Ident);
        let type_params = self.type_params();
        let fields = self.fields();
        StructDecl {
            struct_pos: keyword.pos,
            exported,
            resource: false,
            name: name.text,
            name_pos: name.pos,
            type_params,
            fields,
        }
    }

    fn params(&mut self) -> Vec<Param> {
        self.expect(Kind::LParen);
        let mut params = Vec::new();
        while self.kind() != Kind::RParen {
            let name = self.expect(Kind::Ident);
            let type_ref = self.type_ref();
            params.push(Param { name: name.text, name_pos: name.pos, type_ref });
            if !self.eat(Kind::Comma) {
                break;
            }
        }
        self.expect(Kind::RParen);
        params
    }

    fn return_type(&mut self) -> (TypeRef, bool) {
        let bang = self.eat(Kind::Bang);
        (self.type_ref(), bang)
    }

    fn interface_decl(&mut self, exported: bool) -> InterfaceDecl {
        let keyword = self.expect(Kind::Interface);
        let name = self.expect(Kind::Ident);
        self.expect(Kind::LBrace);
        let mut methods = Vec::new();
        while self.kind() != Kind::RBrace {
            let method = self.expect(Kind::Ident);
            let params = self.params();
            let (return_type, return_is_bang) = self.return_type();
            methods.push(InterfaceMethodDecl {
                name: method.text,
                name_pos: method.pos,
                params,
                return_type,
                return_is_bang,
            });
        }
        self.expect(Kind::RBrace);
        InterfaceDecl {
            interface_pos: keyword.pos,
            exported,
            name: name.text,
            name_pos: name.pos,
            methods,
        }
    }

    fn enum_decl(&mut self, exported: bool) -> EnumDecl {
        let keyword = self.expect(Kind::Enum);
        let name = self.expect(Kind::Ident);
        self.expect(Kind::LBrace);
        let mut cases = Vec::new();
        while self.kind() != Kind::RBrace {
            self.eat(Kind::Case);
            let case = self.expect(Kind::Ident);
            let fields = if self.kind() == Kind::LBrace { self.fields() } else { Vec::new() };
            cases.push(EnumCaseDecl { name: case.text, name_pos: case.pos, fields });
            self.eat(Kind::Comma);
        }
        self.expect(Kind::RBrace);
        EnumDecl { enum_pos: keyword.pos, exported, name: name.text, name_pos: name.pos, cases }
    }

    fn function_decl(&mut self, exported: bool) -> FunctionDecl {
        self.expect(Kind::Fn);
        let mut receiver = None;
        if self.kind() == Kind::LParen {
            self.next();
            let name = self.expect(Kind::Ident);
            let type_ref = self.type_ref();
            self.expect(Kind::RParen);
            receiver = Some(ReceiverDecl { name: name.text, name_pos: name.pos, type_ref });
        }
        let name = self.expect(Kind::Ident);
        let type_params = self.type_params();
        let params = self.params();
        let (return_type, return_is_bang) = self.return_type();
        let body = self.block();
        FunctionDecl {
            exported,
            host_intrinsic: false,
            name: name.text,
            name_pos: name.pos,
            type_params,
            receiver,
            params,
            return_type,
            return_is_bang,
            body,
        }
    }

    fn type_ref(&mut self) -> TypeRef {
        let start = self.next();
        let mut t = empty_type(start.pos.clone());
        match start.kind {
            Kind::Bang => {
                t.kind = TypeRefKind::Errorable;
                t.elem = Some(Box::new(self.type_ref()));
            }
            Kind::Star => {
                t.kind = TypeRefKind::Pointer;
                t.elem = Some(Box::new(self.type_ref()));
            }
            Kind::LBracket => {
                if self.eat(Kind::RBracket) {
                    t.kind = TypeRefKind::Slice;
                } else {
                    let len = self.expect(Kind::Int);
                    self.expect(Kind::RBracket);
                    t.kind = TypeRefKind::Array;
                    t.array_len = parse_int_literal(&len).unwrap();
                }
                t.elem = Some(Box::new(self.type_ref()));
            }
            Kind::MapKw => {
                self.expect(Kind::LBracket);
                t.kind = TypeRefKind::MapType;
                t.key = Some(Box::new(self.type_ref()));
                self.expect(Kind::RBracket);
                t.value = Some(Box::new(self.type_ref()));
            }
            Kind::Chan => {
                self.expect(Kind::LBracket);
                t.kind = TypeRefKind::Chan;
                t.elem = Some(Box::new(self.type_ref()));
                self.expect(Kind::RBracket);
            }
            Kind::Fn => {
                t.kind = TypeRefKind::Function;
                self.expect(Kind::LParen);
                while self.kind() != Kind::RParen {
                    t.params.push(self.type_ref());
                    if !self.eat(Kind::Comma) {
                        break;
                    }
                }
                self.expect(Kind::RParen);
                t.errorable = self.eat(Kind::Bang);
                t.return_type = Some(Box::new(self.type_ref()));
            }
            Kind::Ident | Kind::Error => {
                t.name = start.text;
                while self.kind() == Kind::Dot && self.peek_at(1).kind == Kind::Ident {
                    self.next();
                    t.name.push('.');
                    t.name.push_str(&self.next().text);
                }
                if self.kind() == Kind::LBracket && self.same_line() {
                    self.next();
                    while self.kind() != Kind::RBracket {
                        t.type_args.push(self.type_ref());
                        if !self.eat(Kind::Comma) {
                            break;
                        }
                    }
                    self.expect(Kind::RBracket);
                }
            }
            other => panic!("unexpected type token {other:?} at {:?}", start.pos),
        }
        t
    }

    /// Whether the tokens from here spell a type list closed by `]` and then
    /// followed by `(` or `{`.
    fn looks_like_type_arguments(&mut self) -> bool {
        let saved = self.at;
        let ok = self.try_type_list();
        self.at = saved;
        ok
    }

    fn try_type_list(&mut self) -> bool {
        loop {
            if !self.try_type() {
                return false;
            }
            if self.kind() == Kind::Comma {
                self.next();
                continue;
            }
            break;
        }
        if self.kind() != Kind::RBracket {
            return false;
        }
        self.next();
        matches!(self.kind(), Kind::LParen | Kind::LBrace)
    }

    fn try_type(&mut self) -> bool {
        match self.kind() {
            Kind::Bang | Kind::Star => {
                self.next();
                self.try_type()
            }
            Kind::LBracket => {
                self.next();
                if self.kind() == Kind::Int {
                    self.next();
                }
                if self.kind() != Kind::RBracket {
                    return false;
                }
                self.next();
                self.try_type()
            }
            Kind::MapKw => {
                self.next();
                if !self.eat(Kind::LBracket) || !self.try_type() || !self.eat(Kind::RBracket) {
                    return false;
                }
                self.try_type()
            }
            Kind::Chan => {
                self.next();
                self.eat(Kind::LBracket) && self.try_type() && self.eat(Kind::RBracket)
            }
            Kind::Ident => {
                let name = self.peek().text.clone();
                let first = name.chars().next().unwrap_or('a');
                let builtin = matches!(name.as_str(), "i32" | "i64" | "bool" | "str" | "void" | "error");
                if !builtin && !first.is_uppercase() {
                    return false;
                }
                self.next();
                if self.kind() == Kind::LBracket {
                    self.next();
                    loop {
                        if !self.try_type() {
                            return false;
                        }
                        if !self.eat(Kind::Comma) {
                            break;
                        }
                    }
                    return self.eat(Kind::RBracket);
                }
                true
            }
            _ => false,
        }
    }

    fn block(&mut self) -> BlockStmt {
        let lbrace = self.expect(Kind::LBrace);
        let saved = self.no_struct_literal;
        self.no_struct_literal = false;
        let mut stmts = Vec::new();
        while self.kind() != Kind::RBrace {
            stmts.push(self.statement());
        }
        self.expect(Kind::RBrace);
        self.no_struct_literal = saved;
        BlockStmt { lbrace: lbrace.pos, stmts }
    }

    fn statement(&mut self) -> Statement {
        match self.kind() {
            Kind::LBrace => Statement::Block(Box::new(self.block())),
            Kind::Var => {
                let keyword = self.next();
                let name = self.expect(Kind::Ident);
                let type_ref = self.type_ref();
                let value = if self.eat(Kind::Assign) { Some(self.expression()) } else { None };
                Statement::Var(Box::new(VarStmt {
                    var_pos: keyword.pos,
                    name: name.text,
                    name_pos: name.pos,
                    type_ref,
                    value,
                }))
            }
            Kind::If => self.if_statement(),
            Kind::For => {
                let keyword = self.next();
                let saved = self.no_struct_literal;
                self.no_struct_literal = true;
                let (init, cond, post) = if self.kind() == Kind::LBrace {
                    (None, None, None)
                } else {
                    let first = self.simple_statement();
                    if self.eat(Kind::Semicolon) {
                        let cond = self.expression();
                        self.expect(Kind::Semicolon);
                        let post = self.simple_statement();
                        (Some(first), Some(cond), Some(post))
                    } else {
                        match first {
                            Statement::Expr(expr) => (None, Some(expr.expr), None),
                            other => panic!("unexpected for clause {other:?}"),
                        }
                    }
                };
                self.no_struct_literal = saved;
                let body = self.block();
                Statement::For(Box::new(ForStmt { for_pos: keyword.pos, init, cond, post, body }))
            }
            Kind::Break => Statement::Break(BreakStmt { break_pos: self.next().pos }),
            Kind::Continue => Statement::Continue(ContinueStmt { continue_pos: self.next().pos }),
            Kind::Return => {
                let keyword = self.next();
                let value = if self.same_line() && self.kind() != Kind::RBrace {
                    Some(self.expression())
                } else {
                    None
                };
                Statement::Return(Box::new(ReturnStmt { return_pos: keyword.pos, value }))
            }
            Kind::Match => self.match_statement(),
            Kind::Spawn => {
                let keyword = self.next();
                let call = self.expression();
                Statement::Spawn(Box::new(SpawnStmt { spawn_pos: keyword.pos, call }))
            }
            _ => self.simple_statement(),
        }
    }

    fn simple_statement(&mut self) -> Statement {
        if self.kind() == Kind::Ident && self.peek_at(1).kind == Kind::ColonAssign {
            let name = self.next();
            let op = self.next();
            let value = self.expression();
            return Statement::Let(Box::new(LetStmt {
                let_pos: op.pos,
                name: name.text,
                name_pos: name.pos,
                value,
            }));
        }
        let target = self.expression();
        let compound = match self.kind() {
            Kind::PlusAssign => Some(Kind::Plus),
            Kind::MinusAssign => Some(Kind::Minus),
            Kind::StarAssign => Some(Kind::Star),
            Kind::SlashAssign => Some(Kind::Slash),
            Kind::PercentAssign => Some(Kind::Percent),
            _ => None,
        };
        if let Some(operator) = compound {
            let op = self.next();
            let value = self.expression();
            return Statement::CompoundAssign(Box::new(CompoundAssignStmt {
                target,
                operator,
                op_pos: op.pos,
                value,
            }));
        }
        if self.kind() == Kind::Assign {
            self.next();
            let value = self.expression();
            return Statement::Assign(Box::new(AssignStmt { target, value }));
        }
        Statement::Expr(Box::new(ExprStmt { expr: target }))
    }

    fn if_statement(&mut self) -> Statement {
        let keyword = self.expect(Kind::If);
        let saved = self.no_struct_literal;
        self.no_struct_literal = true;
        let cond = self.expression();
        self.no_struct_literal = saved;
        let then_block = self.block();
        let else_stmt = if self.eat(Kind::Else) {
            if self.kind() == Kind::If {
                Some(self.if_statement())
            } else {
                Some(Statement::Block(Box::new(self.block())))
            }
        } else {
            None
        };
        Statement::If(Box::new(IfStmt { if_pos: keyword.pos, cond, then_block, else_stmt }))
    }

    fn match_statement(&mut self) -> Statement {
        let keyword = self.expect(Kind::Match);
        let saved = self.no_struct_literal;
        self.no_struct_literal = true;
        let value = self.expression();
        self.no_struct_literal = saved;
        self.expect(Kind::LBrace);
        let mut arms = Vec::new();
        let mut else_body = None;
        while self.kind() != Kind::RBrace {
            if self.eat(Kind::Else) {
                else_body = Some(self.block());
                continue;
            }
            let case = self.expect(Kind::Case);
            let enum_name = self.expect(Kind::Ident);
            let mut enum_type = empty_type(enum_name.pos.clone());
            enum_type.name = enum_name.text;
            self.expect(Kind::Dot);
            let case_name = self.expect(Kind::Ident);
            let mut bind_name = String::new();
            let mut bind_name_pos = case_name.pos.clone();
            let mut bind_ignore = false;
            if self.eat(Kind::LParen) {
                let bind = self.expect(Kind::Ident);
                bind_name_pos = bind.pos.clone();
                if bind.text == "_" {
                    bind_ignore = true;
                } else {
                    bind_name = bind.text;
                }
                self.expect(Kind::RParen);
            }
            let body = self.block();
            arms.push(MatchArm {
                case_pos: case.pos,
                enum_type,
                case_name: case_name.text,
                case_name_pos: case_name.pos,
                bind_name,
                bind_name_pos,
                bind_ignore,
                body,
            });
        }
        self.expect(Kind::RBrace);
        Statement::Match(Box::new(MatchStmt { match_pos: keyword.pos, value, arms, else_body }))
    }

    fn expression(&mut self) -> Expression {
        let inner = self.binary(0);
        if self.kind() == Kind::Or {
            let or = self.next();
            self.expect(Kind::Pipe);
            let err = self.expect(Kind::Ident);
            self.expect(Kind::Pipe);
            let handler = self.block();
            return Expression::Handle(Box::new(HandleExpr {
                inner,
                or_pos: or.pos,
                err_name: err.text,
                err_pos: err.pos,
                handler,
            }));
        }
        inner
    }

    fn precedence(kind: Kind) -> Option<usize> {
        match kind {
            Kind::PipePipe => Some(1),
            Kind::AmpAmp => Some(2),
            Kind::EqualEqual
            | Kind::BangEqual
            | Kind::Less
            | Kind::LessEqual
            | Kind::Greater
            | Kind::GreaterEqual => Some(3),
            Kind::Plus | Kind::Minus => Some(4),
            Kind::Star | Kind::Slash | Kind::Percent => Some(5),
            _ => None,
        }
    }

    fn binary(&mut self, min: usize) -> Expression {
        let mut left = self.unary();
        loop {
            let Some(prec) = Self::precedence(self.kind()) else {
                break;
            };
            if prec <= min || !self.same_line() {
                break;
            }
            let op = self.next();
            let right = self.binary(prec);
            left = Expression::Binary(Box::new(BinaryExpr {
                left,
                operator: op.kind,
                op_pos: op.pos,
                right,
            }));
        }
        left
    }

    fn unary(&mut self) -> Expression {
        match self.kind() {
            Kind::Minus | Kind::Bang | Kind::Amp | Kind::Star => {
                let op = self.next();
                let inner = self.unary();
                Expression::Unary(Box::new(UnaryExpr { operator: op.kind, op_pos: op.pos, inner }))
            }
            _ => self.postfix(),
        }
    }

    fn call_args(&mut self) -> Vec<Expression> {
        self.expect(Kind::LParen);
        let saved = self.no_struct_literal;
        self.no_struct_literal = false;
        let mut args = Vec::new();
        while self.kind() != Kind::RParen {
            args.push(self.expression());
            if !self.eat(Kind::Comma) {
                break;
            }
        }
        self.expect(Kind::RParen);
        self.no_struct_literal = saved;
        args
    }

    fn postfix(&mut self) -> Expression {
        let mut expr = self.primary();
        loop {
            match self.kind() {
                Kind::Dot => {
                    let dot = self.next();
                    let name = self.expect(Kind::Ident);
                    if self.kind() == Kind::LBrace
                        && !self.no_struct_literal
                        && self.same_line()
                        && qualified_name(&expr).is_some()
                    {
                        let mut spelled = qualified_name(&expr).unwrap();
                        spelled.push('.');
                        spelled.push_str(&name.text);
                        let mut type_ref = empty_type(expr.pos());
                        type_ref.name = spelled;
                        expr = self.struct_literal(type_ref);
                        continue;
                    }
                    expr = Expression::Selector(Box::new(SelectorExpr {
                        inner: expr,
                        dot_pos: dot.pos,
                        name: name.text,
                        name_pos: name.pos,
                    }));
                }
                Kind::LParen if self.same_line() => {
                    let args = self.call_args();
                    expr = Expression::Call(Box::new(CallExpr { callee: expr, args }));
                }
                Kind::LBracket if self.same_line() => {
                    if matches!(expr, Expression::Ident(_)) {
                        let saved = self.at;
                        self.next();
                        if self.looks_like_type_arguments() {
                            let lbracket = self.tokens[saved].pos.clone();
                            let mut type_args = Vec::new();
                            while self.kind() != Kind::RBracket {
                                type_args.push(self.type_ref());
                                if !self.eat(Kind::Comma) {
                                    break;
                                }
                            }
                            self.expect(Kind::RBracket);
                            if self.kind() == Kind::LBrace {
                                let Expression::Ident(ident) = expr else { unreachable!() };
                                let mut type_ref = empty_type(ident.name_pos.clone());
                                type_ref.name = ident.name.clone();
                                type_ref.type_args = type_args;
                                expr = self.struct_literal(type_ref);
                            } else {
                                expr = Expression::TypeApplication(Box::new(TypeApplicationExpr {
                                    inner: expr,
                                    lbracket_pos: lbracket,
                                    type_args,
                                }));
                            }
                            continue;
                        }
                        self.at = saved;
                    }
                    let lbracket = self.next();
                    let saved_literal = self.no_struct_literal;
                    self.no_struct_literal = false;
                    let start = if self.kind() == Kind::Colon { None } else { Some(self.expression()) };
                    if self.kind() == Kind::Colon {
                        let colon = self.next();
                        let end = if self.kind() == Kind::RBracket { None } else { Some(self.expression()) };
                        self.expect(Kind::RBracket);
                        expr = Expression::Slice(Box::new(SliceExpr {
                            inner: expr,
                            lbracket_pos: lbracket.pos,
                            start,
                            colon_pos: colon.pos,
                            end,
                        }));
                    } else {
                        self.expect(Kind::RBracket);
                        expr = Expression::Index(Box::new(IndexExpr {
                            inner: expr,
                            lbracket_pos: lbracket.pos,
                            index: start.unwrap(),
                        }));
                    }
                    self.no_struct_literal = saved_literal;
                }
                Kind::Question => {
                    let question = self.next();
                    expr = Expression::Propagate(Box::new(PropagateExpr {
                        inner: expr,
                        question_pos: question.pos,
                    }));
                }
                Kind::LBrace
                    if !self.no_struct_literal
                        && self.same_line()
                        && matches!(&expr, Expression::Ident(ident) if ident.name.chars().next().is_some_and(char::is_uppercase)) =>
                {
                    let Expression::Ident(ident) = expr else { unreachable!() };
                    let mut type_ref = empty_type(ident.name_pos.clone());
                    type_ref.name = ident.name.clone();
                    expr = self.struct_literal(type_ref);
                }
                _ => break,
            }
        }
        expr
    }

    fn struct_literal(&mut self, type_ref: TypeRef) -> Expression {
        let lbrace = self.expect(Kind::LBrace);
        let saved = self.no_struct_literal;
        self.no_struct_literal = false;
        let mut fields = Vec::new();
        while self.kind() != Kind::RBrace {
            let name = self.expect(Kind::Ident);
            self.expect(Kind::Colon);
            let value = self.expression();
            fields.push(StructLiteralField { name: name.text, name_pos: name.pos, value });
            if !self.eat(Kind::Comma) {
                break;
            }
        }
        self.expect(Kind::RBrace);
        self.no_struct_literal = saved;
        Expression::StructLiteral(Box::new(StructLiteralExpr { type_ref, lbrace: lbrace.pos, fields }))
    }

    fn elements(&mut self) -> (Position, Vec<Expression>) {
        let lbrace = self.expect(Kind::LBrace);
        let saved = self.no_struct_literal;
        self.no_struct_literal = false;
        let mut elements = Vec::new();
        while self.kind() != Kind::RBrace {
            elements.push(self.expression());
            if !self.eat(Kind::Comma) {
                break;
            }
        }
        self.expect(Kind::RBrace);
        self.no_struct_literal = saved;
        (lbrace.pos, elements)
    }

    fn primary(&mut self) -> Expression {
        let token = self.peek().clone();
        match token.kind {
            Kind::Ident => {
                self.next();
                Expression::Ident(Box::new(IdentExpr { name: token.text, name_pos: token.pos }))
            }
            Kind::Int => {
                self.next();
                Expression::Int(IntLiteral { value: parse_int_literal(&token).unwrap(), lit_pos: token.pos })
            }
            Kind::Char => {
                self.next();
                Expression::Char(CharLiteral { value: parse_char_literal(&token), lit_pos: token.pos })
            }
            Kind::String => {
                self.next();
                Expression::String(StringLiteral { value: token.text, lit_pos: token.pos })
            }
            Kind::True | Kind::False => {
                self.next();
                Expression::Bool(BoolLiteral { value: token.kind == Kind::True, lit_pos: token.pos })
            }
            Kind::Nil => {
                self.next();
                Expression::Nil(NilLiteral { lit_pos: token.pos })
            }
            Kind::Error => {
                self.next();
                self.expect(Kind::Dot);
                let name = self.expect(Kind::Ident);
                Expression::Error(ErrorLiteral { name: name.text, err_pos: token.pos })
            }
            Kind::LParen => {
                self.next();
                let saved = self.no_struct_literal;
                self.no_struct_literal = false;
                let inner = self.expression();
                self.no_struct_literal = saved;
                self.expect(Kind::RParen);
                Expression::Group(Box::new(GroupExpr { inner }))
            }
            Kind::Fn => {
                self.next();
                let params = self.params();
                let (return_type, return_is_bang) = self.return_type();
                let body = self.block();
                Expression::FunctionLiteral(Box::new(FunctionLiteralExpr {
                    fn_pos: token.pos,
                    enclosing_function: String::new(),
                    params,
                    return_type,
                    return_is_bang,
                    body,
                }))
            }
            Kind::Taskgroup => {
                self.next();
                let result_type = self.type_ref();
                let body = self.block();
                Expression::Taskgroup(Box::new(TaskgroupExpr {
                    taskgroup_pos: token.pos,
                    result_type,
                    body,
                }))
            }
            Kind::LBracket | Kind::MapKw => {
                let type_ref = self.type_ref();
                match type_ref.kind {
                    TypeRefKind::MapType => {
                        let lbrace = self.expect(Kind::LBrace);
                        let mut pairs = Vec::new();
                        while self.kind() != Kind::RBrace {
                            let key_pos = self.peek().pos.clone();
                            let key = self.expression();
                            self.expect(Kind::Colon);
                            let value_pos = self.peek().pos.clone();
                            let value = self.expression();
                            pairs.push(MapLiteralPair { key, key_pos, value, value_pos });
                            if !self.eat(Kind::Comma) {
                                break;
                            }
                        }
                        self.expect(Kind::RBrace);
                        Expression::MapLiteral(Box::new(MapLiteralExpr { type_ref, lbrace: lbrace.pos, pairs }))
                    }
                    TypeRefKind::Array => {
                        let (lbrace, elements) = self.elements();
                        Expression::ArrayLiteral(Box::new(ArrayLiteralExpr { type_ref, lbrace, elements }))
                    }
                    _ => {
                        let (lbrace, elements) = self.elements();
                        Expression::SliceLiteral(Box::new(SliceLiteralExpr { type_ref, lbrace, elements }))
                    }
                }
            }
            other => panic!("unexpected expression token {other:?} at {:?}", token.pos),
        }
    }
}

fn qualified_name(expr: &Expression) -> Option<String> {
    match expr {
        Expression::Ident(ident) => Some(ident.name.clone()),
        _ => None,
    }
}

fn parse_ok(src: &str) -> Program {
    let mut lexer = Lexer::new_file(src, "<test>".to_string());
    let tokens = lexer.lex();
    assert_eq!(lexer.diagnostics(), Vec::<Diagnostic>::new());
    let mut parser = Parser { tokens, at: 0, no_struct_literal: false };
    parser.program()
}

fn assert_has(diagnostics: &[Diagnostic], expected: &str) {
    assert!(
        diagnostics.iter().any(|diagnostic| diagnostic.message == expected),
        "missing diagnostic {expected:?}; got {diagnostics:?}",
    );
}

fn assert_not_has(diagnostics: &[Diagnostic], unexpected: &str) {
    assert!(
        diagnostics.iter().all(|diagnostic| diagnostic.message != unexpected),
        "unexpected diagnostic {unexpected:?}; got {diagnostics:?}",
    );
}

fn test_host_signature(full_name: &str) -> Signature {
    Signature {
        name: full_name.to_string(),
        package: full_name.split_once('.').unwrap().0.to_string(),
        full_name: full_name.to_string(),
        method: false,
        receiver: String::new(),
        params: Vec::new(),
        return_type: "void".to_string(),
        errorable: true,
        builtin: false,
        host_intrinsic: true,
        exported: true,
    }
}

// ---------------------------------------------------------------------------

#[test]
fn keeps_process_limit_errors_separate_from_environment_errors() {
    let mut checker = Checker::new();
    checker.register_host_error_names(&test_host_signature("process.run"));
    for name in ["Cancelled", "IO", "InvalidArgument", "LimitExceeded", "NotFound", "PermissionDenied", "Timeout"] {
        assert!(checker.info.error_codes.contains_key(name), "missing {name}");
    }

    let mut checker = Checker::new();
    checker.register_host_error_names(&test_host_signature("env.lookup"));
    for name in ["IO", "InvalidArgument", "NotFound", "PermissionDenied"] {
        assert!(checker.info.error_codes.contains_key(name), "missing {name}");
    }
    for name in ["Cancelled", "LimitExceeded", "Timeout"] {
        assert!(
            !checker.info.error_codes.contains_key(name),
            "environment lookup registered process-only error {name}"
        );
    }
}

#[test]
fn private_field_ownership_uses_canonical_package_identity() {
    let mut program = parse_ok(
        r#"package main

struct Secret {
    secret i32
}

fn inspect(value Secret) i32 {
    return value.secret
}
"#,
    );

    let secret_type = "origin_a.model.Secret".to_string();
    program.structs[0].name = secret_type.clone();
    program.functions[0].name = "origin_b.model.inspect".to_string();
    program.functions[0].params[0].type_ref.name = secret_type;

    let (_info, diagnostics) = check_program(&program);

    assert!(diagnostics.iter().any(|diagnostic| diagnostic.message
        == "field \"secret\" of struct \"origin_a.model.Secret\" is not exported by package \"model\""));
}

#[test]
fn builds_struct_enum_interface_and_function_metadata() {
    let program = parse_ok(
        r#"
package main

struct Point {
    x i32
    y i32
}

interface Writer {
    write(msg str) !void
}

enum Result {
    Ok { value i32 }
    Err { message str }
}

fn (p *Point) reset() void {
    return
}

fn main() i32 {
    return 0
}
"#,
    );

    let (info, diagnostics) = check_program(&program);
    assert_eq!(diagnostics, Vec::new());
    assert_eq!(info.structs.get("Point").unwrap().fields[0].type_, "i32");
    assert_eq!(info.interfaces.get("Writer").unwrap().methods[0].return_type, "void");
    assert_eq!(info.enums.get("Result").unwrap().cases[0].payload_type, "Result.Ok");
    assert!(info.methods.get("*Point").unwrap().contains_key("reset"));
    assert_eq!(info.functions.get("main").unwrap().return_type, "i32");
}

#[test]
fn rejects_invalid_core_function_bodies() {
    let program = parse_ok(
        r#"
package main

struct Point {
    x i32
}

fn add(a i32, b i32) i32 {
    return a + b
}

fn main() i32 {
    x := true
    y := add(1, x)
    p := Point{x: "bad"}
    if 1 {
        return y
    }
    return p.nope
}
"#,
    );

    let (_info, diagnostics) = check_program(&program);
    assert_has(&diagnostics, "argument 2 to \"add\" must be i32, got bool");
    assert_has(&diagnostics, "cannot assign str to i32");
    assert_has(&diagnostics, "if condition must be bool");
    assert_has(&diagnostics, "struct \"Point\" has no field \"nope\"");
}

#[test]
fn rejects_invalid_error_sugar_with_stable_diagnostics() {
    let non_errorable_operand = parse_ok(
        r#"
package main

fn main() i32 {
    x := 1?
    return x
}
"#,
    );

    let (_info, diagnostics) = check_program(&non_errorable_operand);
    assert_has(&diagnostics, "? requires an errorable expression or error value");
    assert_not_has(&diagnostics, "cannot use ? in a function that cannot return an error");

    let invalid_propagation_context = parse_ok(
        r#"
package main

fn divide(a i32, b i32) !i32 {
    return a / b
}

fn main() i32 {
    x := divide(10, 2)?
    return x
}
"#,
    );

    let (_info, diagnostics) = check_program(&invalid_propagation_context);
    assert_has(&diagnostics, "cannot use ? in a function that cannot return an error");

    let errorable_builtin_argument = parse_ok(
        r#"
package main

fn maybe() !i32 {
    return 1
}

fn main() i32 {
    text := to_str(maybe())
    return len(text)
}
"#,
    );

    let (_info, diagnostics) = check_program(&errorable_builtin_argument);
    assert_has(&diagnostics, "errorable value cannot be passed as an argument");
}

#[test]
fn rejects_errorable_special_builtin_arguments() {
    let cases = [
        (
            "append slice argument",
            "errorable value cannot be passed as an argument",
            r#"
package main

fn maybe_values() ![]i32 {
    return []i32{}
}

fn main() i32 {
    values := append(maybe_values(), 1)
    return len(values)
}
"#,
        ),
        (
            "append value argument",
            "errorable value cannot be passed as an argument",
            r#"
package main

fn maybe() !i32 {
    return 1
}

fn main() i32 {
    values := []i32{}
    values = append(values, maybe())
    return len(values)
}
"#,
        ),
        (
            "append requires value",
            "argument 2 to \"append\" requires a value",
            r#"
package main

fn noop() void {
    return
}

fn main() i32 {
    values := []i32{}
    values = append(values, noop())
    return len(values)
}
"#,
        ),
        (
            "has map argument",
            "errorable value cannot be passed as an argument",
            r#"
package main

fn maybe_map() !map[i32]i32 {
    return map[i32]i32{}
}

fn main() i32 {
    if has(maybe_map(), 1) {
        return 1
    }
    return 0
}
"#,
        ),
        (
            "has key argument",
            "errorable value cannot be passed as an argument",
            r#"
package main

fn maybe() !i32 {
    return 1
}

fn main() i32 {
    values := map[i32]i32{}
    if has(values, maybe()) {
        return 1
    }
    return 0
}
"#,
        ),
        (
            "delete key argument",
            "errorable value cannot be passed as an argument",
            r#"
package main

fn maybe() !i32 {
    return 1
}

fn main() i32 {
    values := map[i32]i32{}
    delete(values, maybe())
    return 0
}
"#,
        ),
        (
            "keys map argument",
            "errorable value cannot be passed as an argument",
            r#"
package main

fn maybe_map() !map[i32]i32 {
    return map[i32]i32{}
}

fn main() i32 {
    values := keys(maybe_map())
    return len(values)
}
"#,
        ),
    ];

    for (name, expected, src) in cases {
        let program = parse_ok(src);
        let (_info, diagnostics) = check_program(&program);
        assert!(
            diagnostics.iter().any(|diagnostic| diagnostic.message == expected),
            "{name}: missing diagnostic {expected:?}; got {diagnostics:?}",
        );
    }
}

#[test]
fn rejects_value_or_handlers_that_do_not_terminate_control_flow() {
    let program = parse_ok(
        r#"
package main

fn maybe() !i32 {
    return 1
}

fn main() i32 {
    value := maybe() or |err| {
        print(to_str(err))
    }
    return value
}
"#,
    );

    let (_info, diagnostics) = check_program(&program);
    assert_has(&diagnostics, "or handler for a value result must terminate control flow");
}

#[test]
fn accepts_value_or_handlers_terminated_by_exhaustive_match() {
    let program = parse_ok(
        r#"
package main

enum Mode {
    Zero
    One
}

fn maybe() !i32 {
    return 1
}

fn main() i32 {
    mode := Mode.Zero
    value := maybe() or |_| {
        match mode {
        case Mode.Zero {
            return 0
        }
        case Mode.One {
            return 1
        }
        }
    }
    return value
}
"#,
    );

    let (_info, diagnostics) = check_program(&program);
    assert_eq!(diagnostics, Vec::new());
}

#[test]
fn rejects_invalid_slice_bounds_with_stable_diagnostics() {
    let program = parse_ok(
        r#"
package main

fn maybe() !i32 {
    return 1
}

fn main() i32 {
    values := []i32{1, 2, 3}
    errorable := values[maybe():2]
    non_integer := values[true:2]
    too_large := values[2147483648:2]
    return len(errorable) + len(non_integer) + len(too_large)
}
"#,
    );

    let (_info, diagnostics) = check_program(&program);
    assert_has(&diagnostics, "slice bounds cannot be errorable");
    assert_has(&diagnostics, "slice bounds must be integers");
    assert_has(&diagnostics, "slice bounds must fit in i32");
}

#[test]
fn rejects_invalid_map_assignment_targets_with_stable_diagnostics() {
    let cases = [
        (
            "errorable map target",
            "indexing cannot use an errorable value",
            r#"
package main

fn maybe_map() !map[i32]i32 {
    return map[i32]i32{}
}

fn main() i32 {
    maybe_map()[1] = 2
    return 0
}
"#,
        ),
        (
            "errorable map key",
            "map key expression cannot be errorable",
            r#"
package main

fn maybe() !i32 {
    return 1
}

fn main() i32 {
    values := map[i32]i32{}
    values[maybe()] = 2
    return 0
}
"#,
        ),
    ];

    for (name, expected, src) in cases {
        let program = parse_ok(src);
        let (_info, diagnostics) = check_program(&program);
        assert!(
            diagnostics.iter().any(|diagnostic| diagnostic.message == expected),
            "{name}: missing diagnostic {expected:?}; got {diagnostics:?}",
        );
    }
}

#[test]
fn rejects_map_compound_assignment_with_stable_diagnostic() {
    let program = parse_ok(
        r#"
package main

fn main() i32 {
    values := map[str]i32{"count": 1}
    values["count"] += 1
    return 0
}
"#,
    );

    let (_info, diagnostics) = check_program(&program);
    assert_has(
        &diagnostics,
        "map compound assignment is not supported; use an explicit lookup and assignment",
    );
}

#[test]
fn suppresses_follow_up_diagnostics_after_invalid_expression_types() {
    let program = parse_ok(
        r#"
package main

fn main() i32 {
    x := missing()
    var y i32 = missing()
    y = missing()
    return missing()
}
"#,
    );

    let (_info, diagnostics) = check_program(&program);

    assert_has(&diagnostics, "unknown function \"missing\"");
    assert_not_has(&diagnostics, "declaration requires a value");
    assert_not_has(&diagnostics, "cannot assign  to i32");
    assert_not_has(&diagnostics, "cannot return  from function returning i32");
}

#[test]
fn rejects_errorable_conditions_with_stable_diagnostics() {
    let program = parse_ok(
        r#"
package main

fn maybe() !bool {
    return true
}

fn main() i32 {
    if maybe() {
        return 1
    }
    for maybe() {
        return 2
    }
    return 0
}
"#,
    );

    let (_info, diagnostics) = check_program(&program);
    assert_has(&diagnostics, "if condition cannot be errorable");
    assert_has(&diagnostics, "for condition cannot be errorable");
    assert_not_has(&diagnostics, "if condition cannot be errorable; must be bool");
    assert_not_has(&diagnostics, "for condition cannot be errorable; must be bool");
}

#[test]
fn checks_loop_control_and_noreturn_flow() {
    let valid = parse_ok(
        r#"
package main

fn stop() noreturn {
    panic("stop")
}

fn main() i32 {
    for {
        break
    }
    for i := 0; i < 2; i = i + 1 {
        continue
    }
    stop()
}
"#,
    );

    let (_info, diagnostics) = check_program(&valid);
    assert_eq!(diagnostics, Vec::new());

    let invalid = parse_ok(
        r#"
package main

fn main() i32 {
    break
    continue
    return 0
}
"#,
    );

    let (_info, diagnostics) = check_program(&invalid);
    assert_has(&diagnostics, "break can only be used inside a loop");
    assert_has(&diagnostics, "continue can only be used inside a loop");
}

#[test]
fn checks_closures_and_rejects_invalid_captures() {
    let valid = parse_ok(
        r#"
package main

fn apply_twice(f fn(i32) i32, value i32) i32 {
    return f(f(value))
}

fn make_adder(base i32) fn(i32) i32 {
    return fn(delta i32) i32 {
        return base + delta
    }
}

fn main() i32 {
    base := 10
    add := make_adder(base)
    inc := fn(value i32) i32 {
        return value + 1
    }
    return apply_twice(add, inc(1))
}
"#,
    );

    let (_info, diagnostics) = check_program(&valid);
    assert_eq!(diagnostics, Vec::new());

    let invalid = parse_ok(
        r#"
package main

fn main() i32 {
    value := 1
    assign := fn() i32 {
        value = 2
        return value
    }
    address := fn() i32 {
        ptr := &value
        if ptr == nil {
            return 1
        }
        return value
    }
    call := fn(value i32) i32 {
        return value
    }
    return assign() + address() + call()
}
"#,
    );

    let (_info, diagnostics) = check_program(&invalid);
    assert_has(&diagnostics, "cannot assign to captured outer local \"value\"");
    assert_has(&diagnostics, "captured outer local \"value\" is not addressable");
    assert_not_has(&diagnostics, "address-of requires an addressable operand or composite literal");
    assert_has(&diagnostics, "function \"function value\" expects 1 arguments, got 0");
}

#[test]
fn checks_concurrency_and_rejects_invalid_spawn_channel_use() {
    let valid = parse_ok(
        r#"
package main

fn compute(v i32) i32 {
    return v * 2
}

fn read_one(ch chan[i32]) !i32 {
    return chan_recv(ch)
}

fn main() i32 {
    ch := chan_new[i32](2)
    chan_send(ch, 3) or |_| {
        return 1
    }

    values := taskgroup []i32 {
        spawn compute(1)
        spawn compute(2)
    }

    results := taskgroup []!i32 {
        spawn read_one(ch)
    }

    first := results[0] or |_| {
        return 2
    }
    if first != 3 {
        return 3
    }
    if len(values) != 2 {
        return 4
    }
    chan_close(ch)
    return values[0] + values[1]
}
"#,
    );

    let (_info, diagnostics) = check_program(&valid);
    assert_eq!(diagnostics, Vec::new());

    let invalid = parse_ok(
        r#"
package main

fn work() i32 {
    return 1
}

fn main() i32 {
    spawn work()

    f := fn() i32 {
        return 1
    }
    bad_call := taskgroup []i32 {
        spawn f
    }

    bad_return := taskgroup []str {
        spawn work()
    }

    values := []i32{1, 2}
    bad_builtin := taskgroup []i32 {
        spawn len(values)
    }

    ch := chan_new[i32](1)
    chan_send(ch, "x")
    nested := chan_new[chan[i32]](1)

    for true {
        taskgroup []void {
            spawn fn() void {
                return
            }()
            break
        }
    }
    return len(bad_call) + len(bad_return)
}
"#,
    );

    let (_info, diagnostics) = check_program(&invalid);
    assert_has(&diagnostics, "spawn is only valid inside a taskgroup body");
    assert_has(&diagnostics, "spawn requires a call expression");
    assert_has(&diagnostics, "spawned call must return str, got i32");
    assert_has(&diagnostics, "argument 2 to \"chan_send\" must be i32, got str");
    assert_has(&diagnostics, "channel element type \"chan[i32]\" is not allowed");
    assert_has(
        &diagnostics,
        "spawn does not currently support builtin \"len\" directly; wrap it in an inline function literal",
    );
    assert_has(&diagnostics, "break cannot exit a taskgroup body");
}

#[test]
fn rejects_concurrency_constructs_that_cannot_reach_join_or_nest_errors() {
    let program = parse_ok(
        r#"
package main

fn stop() noreturn {
    panic("stop")
}

fn main() i32 {
    taskgroup []void {
        stop()
    }

    direct := chan_new[!i32](1)
    var declared chan[!str]
    return 0
}
"#,
    );

    let (_info, diagnostics) = check_program(&program);
    assert_has(
        &diagnostics,
        "noreturn expression cannot be used inside a taskgroup body because it would skip the taskgroup join",
    );
    assert_has(&diagnostics, "channel element type \"!i32\" is not allowed");
    assert_has(&diagnostics, "channel element type \"!str\" is not allowed");
}

#[test]
fn rejects_unsafe_captures_and_unsupported_spawn_targets() {
    let program = parse_ok(
        r#"
package main

struct Worker {
    value i32
}

fn (worker Worker) run() i32 {
    return worker.value
}

fn main() i32 {
    items := []i32{1}
    callable := fn(value i32) i32 {
        return value
    }
    callback := fn() i32 {
        return 1
    }
    worker := Worker{value: 1}
    channel := chan_new[i32](1)

    captured := taskgroup []i32 {
        spawn fn() i32 {
            return items[0]
        }()
    }

    nested_capture := taskgroup []i32 {
        spawn fn() i32 {
            read := fn() i32 {
                return items[0]
            }
            return read()
        }()
    }

    function_capture := taskgroup []i32 {
        spawn fn() i32 {
            return callback()
        }()
    }

    opaque := taskgroup []i32 {
        spawn callable(1)
    }

    method := taskgroup []i32 {
        spawn worker.run()
    }

    taskgroup []void {
        spawn chan_close(channel)
    }

    return len(captured) + len(nested_capture) + len(function_capture) + len(opaque) + len(method)
}
"#,
    );

    let (_info, diagnostics) = check_program(&program);

    assert_has(
        &diagnostics,
        "spawned closure capture \"items\" cannot cross a task boundary: type \"[]i32\" is not share-safe",
    );
    assert_eq!(
        diagnostics
            .iter()
            .filter(|diagnostic| diagnostic
                .message
                .starts_with("spawned closure capture \"items\" cannot cross a task boundary"))
            .count(),
        2,
        "unexpected diagnostics: {diagnostics:?}",
    );
    assert_has(
        &diagnostics,
        "spawn cannot call an arbitrary function value; use a named function or an inline function literal with share-safe captures",
    );
    assert_has(
        &diagnostics,
        "spawned closure capture \"callback\" cannot cross a task boundary: type \"fn() i32\" is not share-safe",
    );
    assert_has(
        &diagnostics,
        "spawn does not currently support selector or method calls directly; wrap the call in an inline function literal",
    );
    assert_has(
        &diagnostics,
        "spawn does not currently support builtin \"chan_close\" directly; wrap it in an inline function literal",
    );
}

#[test]
fn rejects_propagation_that_can_exit_a_taskgroup_body() {
    let valid = parse_ok(
        r#"
package main

fn maybe() !i32 {
    return 1
}

fn wrapped() !i32 {
    values := taskgroup []!i32 {
        spawn fn() !i32 {
            return maybe()?
        }()
    }
    return values[0]?
}

fn main() i32 {
    return 0
}
"#,
    );

    let (_info, diagnostics) = check_program(&valid);
    assert_eq!(diagnostics, Vec::new());

    let invalid = parse_ok(
        r#"
package main

fn maybe() !i32 {
    return 1
}

fn consume(value i32) i32 {
    return value
}

fn invalid() !i32 {
    values := taskgroup []i32 {
        spawn consume(maybe()?)
        direct := maybe()?
        if true {
            nested := maybe()?
        }
        for false {
            inside_loop := maybe()?
        }
        error.Fail or |_| {
            inside_handler := maybe()?
        }
        inner := taskgroup []i32 {
            inside_nested_group := maybe()?
        }
        fallible := fn() !i32 {
            return maybe()?
        }
        from_closure := fallible()?
        error.Fail?
    }
    return len(values)
}

fn main() i32 {
    return 0
}
"#,
    );

    let (_info, diagnostics) = check_program(&invalid);
    assert_eq!(
        diagnostics
            .iter()
            .filter(|diagnostic| {
                diagnostic.message
                    == "? is not allowed inside a taskgroup body because it could skip the taskgroup join"
            })
            .count(),
        8,
        "{diagnostics:?}"
    );
}

#[test]
fn accepts_channel_equality_comparisons() {
    let program = parse_ok(
        r#"
package main

fn main() i32 {
    ch := chan_new[i32](1)
    same := ch == ch
    different := ch != ch
    if !same || different {
        return 1
    }
    chan_close(ch)
    return 0
}
"#,
    );

    let (_info, diagnostics) = check_program(&program);
    assert_eq!(diagnostics, Vec::new());
}

#[test]
fn rejects_invalid_method_and_interface_bodies() {
    let program = parse_ok(
        r#"
package main

interface Labeler {
    label() str
}

struct User {
    name str
}

fn (u User) label(prefix str) str {
    return prefix + u.name
}

fn want(v Labeler) str {
    return v.missing()
}

fn main() i32 {
    u := User{name: "ada"}
    print(u.rename())
    print(want(u))
    return 0
}
"#,
    );

    let (_info, diagnostics) = check_program(&program);
    assert_has(&diagnostics, "interface \"Labeler\" has no method \"missing\"");
    assert_has(&diagnostics, "type \"User\" has no method \"rename\"");
    assert_has(&diagnostics, "method \"label\" on \"User\" does not match interface \"Labeler\"");
}

#[test]
fn rejects_interface_argument_mismatch_with_stable_diagnostic() {
    let program = parse_ok(
        r#"
package main

interface Writer {
    write(s str) void
}

interface Reader {
    read() str
}

fn consume(w Writer) void {
    return
}

fn main() i32 {
    var r Reader
    consume(r)
    return 0
}
"#,
    );

    let (_info, diagnostics) = check_program(&program);
    assert_has(&diagnostics, "argument 1 to \"consume\" must be Writer, got Reader");
    assert_not_has(&diagnostics, "cannot assign Reader to Writer");
    assert_not_has(&diagnostics, "argument 1 to \"consume\" must be Writer, got ");
}

#[test]
fn rejects_method_values() {
    let program = parse_ok(
        r#"
package main

interface Labeler {
    label() str
}

struct User {
    name str
}

fn (u User) label() str {
    return u.name
}

fn use_interface(value Labeler) void {
    method := value.label
    return
}

fn main() i32 {
    user := User{name: "ada"}
    method := user.label
    use_interface(user)
    return 0
}
"#,
    );

    let (_info, diagnostics) = check_program(&program);
    assert_has(&diagnostics, "method values are not supported");
}

#[test]
fn rejects_invalid_match_bodies() {
    let program = parse_ok(
        r#"
package main

enum TokenKind {
    Ident
    Int
}

enum Other {
    Text
}

enum Value {
    Number { value i32 }
}

fn main() i32 {
    kind := TokenKind.Ident
    bad := Value.Number("bad")
    match kind {
    case TokenKind.Ident(_) {
        return 1
    }
    case TokenKind.Missing {
        return 2
    }
    case Other.Text {
        return 3
    }
    case TokenKind.Ident {
        return 4
    }
    }

    match 1 {
    else {
        return 5
    }
    }
    return 0
}
"#,
    );

    let (_info, diagnostics) = check_program(&program);
    assert_has(&diagnostics, "cannot assign str to i32");
    assert_has(&diagnostics, "plain enum case \"Ident\" cannot bind a payload");
    assert_has(&diagnostics, "enum \"TokenKind\" has no case \"Missing\"");
    assert_has(&diagnostics, "match arm must use enum \"TokenKind\"");
    assert_has(&diagnostics, "duplicate match arm for \"Ident\"");
    assert_has(&diagnostics, "match on \"TokenKind\" is not exhaustive; missing TokenKind.Int");
    assert_has(&diagnostics, "match requires an enum value");
}

#[test]
fn rejects_enum_equality_with_stable_diagnostic() {
    let program = parse_ok(
        r#"
package main

enum TokenKind {
    Ident
    Int
}

fn main() i32 {
    ok := TokenKind.Ident == TokenKind.Int
    return 0
}
"#,
    );

    let (_info, diagnostics) = check_program(&program);
    assert_has(&diagnostics, "comparison is not supported for enum values in v0.4");
}

#[test]
fn rejects_unsupported_equality_with_stable_diagnostics() {
    let program = parse_ok(
        r#"
package main

struct Point {
    x i32
}

fn main() i32 {
    same := Point{x: 1} == Point{x: 2}
    mixed := Point{x: 1} == true
    return 0
}
"#,
    );

    let (_info, diagnostics) = check_program(&program);
    assert_has(
        &diagnostics,
        "comparison is only supported for bool, integers, pointers, str, and error",
    );
    assert_has(&diagnostics, "comparison operands must have the same type");
}

#[test]
fn rejects_bare_nil_equality_with_stable_diagnostic() {
    let program = parse_ok(
        r#"
package main

fn main() i32 {
    same := nil == nil
    return 0
}
"#,
    );

    let (_info, diagnostics) = check_program(&program);
    assert_has(
        &diagnostics,
        "comparison is only supported for bool, integers, pointers, str, and error",
    );
}

#[test]
fn rejects_invalid_declaration_shapes() {
    let program = parse_ok(
        r#"
package main

struct Bad {
    value void
    value i32
}

struct Loop {
    next Loop
}

fn print() void {
    return
}

fn len(value i32) i32 {
    return value
}
"#,
    );

    let (_info, diagnostics) = check_program(&program);
    assert_has(&diagnostics, "field \"value\" cannot use type \"void\"");
    assert_has(&diagnostics, "field \"value\" is already declared in struct \"Bad\"");
    assert_has(&diagnostics, "struct \"Loop\" cannot contain itself recursively");
    assert_has(&diagnostics, "function \"print\" is already declared");
    assert_has(&diagnostics, "function \"len\" is already declared");
    assert_has(&diagnostics, "missing main function");
}

#[test]
fn rejects_invalid_type_refs_and_method_receivers() {
    let program = parse_ok(
        r#"
package main

struct Box {
    items map[[]i32]i32
}

fn (x i32) bad() void {
    return
}

fn main() i32 {
    return 0
}
"#,
    );

    let (_info, diagnostics) = check_program(&program);
    assert_has(
        &diagnostics,
        "map key type \"[]i32\" is not supported; must be bool, i32, i64, or str",
    );
    assert_has(&diagnostics, "method receiver must be a named struct type or pointer to one");
}

#[test]
fn rejects_unmonomorphized_generic_declarations() {
    let program = parse_ok(
        r#"
package main

struct Box[T] {
    value T
}

fn id[T](value T) T {
    return value
}

fn main() i32 {
    return 0
}
"#,
    );

    let (_info, diagnostics) = check_program(&program);
    assert_has(&diagnostics, "generic struct \"Box\" must be monomorphized before checking");
    assert_has(&diagnostics, "generic function \"id\" must be monomorphized before checking");
}

#[test]
fn numbers_recorded_errors_in_name_order() {
    let program = parse_ok(
        r#"
package main

fn later() !i32 {
    return error.Zed
}

fn earlier() !i32 {
    return error.Alpha
}

fn main() i32 {
    return 0
}
"#,
    );
    let (info, diagnostics) = check_program(&program);
    assert_eq!(diagnostics, Vec::<Diagnostic>::new());
    assert_eq!(info.ordered_errors, vec!["Alpha".to_string(), "Zed".to_string()]);
    assert_eq!(info.error_codes.get("Alpha"), Some(&1));
    assert_eq!(info.error_codes.get("Zed"), Some(&2));
    assert_eq!(info.error_display_names.get("Zed").map(|s| s.as_str()), Some("Zed"));
}

#[test]
fn rejects_non_share_safe_spawn_arguments_of_every_kind() {
    let program = parse_ok(
        r#"
package main

interface Reader {
    read() i32
}

struct ReaderImpl {
    value i32
}

fn (reader ReaderImpl) read() i32 {
    return reader.value
}

struct WithSlice {
    items []i32
}

enum Choice {
    Safe { value i32 }
    Unsafe { values map[str]i32 }
}

fn take_pointer(value *i32) void { return }
fn take_slice(value []i32) void { return }
fn take_map(value map[str]i32) void { return }
fn take_interface(value Reader) void { return }
fn take_function(value fn() void) void { return }
fn take_array(value [1][]i32) void { return }
fn take_struct(value WithSlice) void { return }
fn take_enum(value Choice) void { return }
fn take_channel(value chan[WithSlice]) void { return }
fn take_number(value i64) void { return }

fn main() i32 {
    number := 1
    items := []i32{1}
    lookup := map[str]i32{"a": 1}
    callback := fn() void { return }
    reader := ReaderImpl{value: 1}
    channel := chan_new[WithSlice](1)

    taskgroup []void {
        spawn take_pointer(&number)
        spawn take_slice(items)
        spawn take_map(lookup)
        spawn take_interface(reader)
        spawn take_function(callback)
        spawn take_array([1][]i32{items})
        spawn take_struct(WithSlice{items: items})
        spawn take_enum(Choice.Safe{value: 1})
        spawn take_channel(channel)
        spawn take_number(7)
    }

    chan_close(channel)
    return 0
}
"#,
    );
    let (_info, diagnostics) = check_program(&program);
    assert_eq!(
        diagnostics
            .iter()
            .filter(|diagnostic| diagnostic.message.contains("cannot cross a task boundary"))
            .count(),
        9,
        "unexpected diagnostics: {diagnostics:?}",
    );
    for expected in [
        "spawn argument 1 cannot cross a task boundary: type \"*i32\" is not share-safe",
        "spawn argument 1 cannot cross a task boundary: type \"[]i32\" is not share-safe",
        "spawn argument 1 cannot cross a task boundary: type \"map[str]i32\" is not share-safe",
        "spawn argument 1 cannot cross a task boundary: type \"Reader\" is not share-safe",
        "spawn argument 1 cannot cross a task boundary: type \"fn() void\" is not share-safe",
        "spawn argument 1 cannot cross a task boundary: array element has non-share-safe type \"[]i32\"",
        "spawn argument 1 cannot cross a task boundary: field \"items\" has non-share-safe type \"[]i32\"",
        "spawn argument 1 cannot cross a task boundary: enum case \"Unsafe\" -> field \"values\" has non-share-safe type \"map[str]i32\"",
        "spawn argument 1 cannot cross a task boundary: channel element -> field \"items\" has non-share-safe type \"[]i32\"",
    ] {
        assert_has(&diagnostics, expected);
    }
}

#[test]
fn accepts_types_that_provide_every_interface_method_exactly() {
    let program = parse_ok(
        r#"
package main

interface Shape {
    area(scale i32) i32
}

struct Square {
    side i32
}

fn (s Square) area(scale i32) i32 {
    return s.side * s.side * scale
}

struct Line {
    length i32
}

fn (l Line) area(scale i64) i32 {
    return 0
}

fn measure(shape Shape) i32 {
    return shape.area(1)
}

fn main() i32 {
    square := Square{side: 2}
    line := Line{length: 3}
    total := measure(square)
    total = total + measure(line)
    return total
}
"#,
    );
    let (_info, diagnostics) = check_program(&program);
    assert!(
        diagnostics.iter().all(|d| !d.message.contains("\"Square\" does not match")),
        "{diagnostics:?}"
    );
    assert!(
        diagnostics.iter().any(|d| d.message.contains("\"area\" on \"Line\" does not match interface \"Shape\"")),
        "{diagnostics:?}"
    );
}

#[test]
fn a_match_with_every_case_and_no_else_raises_nothing() {
    let program = parse_ok(
        r#"
package main

enum Light {
    Red
    Amber
    Green
}

fn score(light Light) i32 {
    match light {
    case Light.Green {
        return 3
    }
    case Light.Red {
        return 1
    }
    case Light.Amber {
        return 2
    }
    }
    return 0
}

fn main() i32 {
    return score(Light.Red)
}
"#,
    );
    let (_info, diagnostics) = check_program(&program);
    assert!(diagnostics.is_empty(), "{diagnostics:?}");

    let partial = parse_ok(
        r#"
package main

enum Light {
    Red
    Amber
    Green
}

fn score(light Light) i32 {
    match light {
    case Light.Green {
        return 3
    }
    case Light.Red {
        return 1
    }
    }
    return 0
}

fn main() i32 {
    return score(Light.Red)
}
"#,
    );
    let (_info, diagnostics) = check_program(&partial);
    assert_has(&diagnostics, "match on \"Light\" is not exhaustive; missing Light.Amber");
}

#[test]
fn a_call_has_the_declared_return_type_or_is_an_unknown_function() {
    let program = parse_ok(
        r#"
package main

fn wide() i64 {
    return 7
}

fn main() i32 {
    var narrow i32 = wide()
    var other i32 = nowhere(1)
    return 0
}
"#,
    );
    let (_info, diagnostics) = check_program(&program);
    assert_has(&diagnostics, "cannot assign i64 to i32");
    assert_has(&diagnostics, "unknown function \"nowhere\"");
    assert_eq!(diagnostics.len(), 2, "{diagnostics:?}");
}

#[test]
fn refuses_returns_that_no_value_type_can_fix() {
    let program = parse_ok(
        r#"
package main

fn missing() i32 {
    return
}

fn halt() noreturn {
    return
}

fn plain() i32 {
    return error.Broken
}

fn done() void {
    return
}

fn main() i32 {
    done()
    return plain()
}
"#,
    );
    let (_info, diagnostics) = check_program(&program);
    assert_has(&diagnostics, "return value is required");
    assert_has(&diagnostics, "noreturn functions cannot return");
    assert_has(&diagnostics, "cannot return error.Broken from function returning i32");
}

#[test]
fn reports_a_literal_argument_of_the_wrong_type_at_the_argument() {
    let program = parse_ok(
        r#"
package main

fn take(flag bool) i32 {
    return 0
}

fn main() i32 {
    return take("text")
}
"#,
    );

    let (_info, diagnostics) = check_program(&program);
    let found = diagnostics
        .iter()
        .find(|d| d.message == "argument 1 to \"take\" must be bool, got str")
        .expect("mismatch reported");
    assert_eq!(found.pos.line, 9);
}

#[test]
fn reports_a_main_that_does_not_return_i32() {
    let program = parse_ok(
        r#"
package main

fn main() str {
    return "x"
}
"#,
    );
    let (info, diagnostics) = check_program(&program);
    assert!(info.functions.contains_key("main"));
    assert_has(&diagnostics, "main must return i32 or !i32");
    assert_not_has(&diagnostics, "missing main function");
}
